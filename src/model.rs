//! The mathematical model of option declarations and of what parsing a token
//! stream against them resolves to.
use vstd::prelude::*;

use crate::argparser::ArgType;
use crate::tokens::{flag_shaped, short_form};

verus! {

/// What is known of one declared option: its current raw value, how many
/// times its flag was matched, and its declaration.
pub struct ArgView {
    /// The raw value: the default before parsing, the resolved value after.
    pub val: Option<Seq<char>>,
    /// How many tokens named the option.
    pub count: nat,
    /// Whether a parse without a value for the option fails.
    pub required: bool,
    /// The short flag character.
    pub flag: char,
    /// The help text.
    pub help: Seq<char>,
    /// The kind of the option.
    pub kind: ArgType,
}

/// An option's name together with what is known of it.
pub type Entry = (Seq<char>, ArgView);

/// Why a token stream was rejected.
pub enum Failure {
    /// No option is declared.
    EmptyRegistry,
    /// The named option's flag lacks its value.
    MissingValue(Seq<char>),
    /// A required option ended without a value.
    MissingRequired,
}

/// No two entries share a name.
pub open spec fn names_unique(es: Seq<Entry>) -> bool {
    forall|i: int, j: int| 0 <= i < j < es.len() ==> es[i].0 != es[j].0
}

/// The index of the entry with this name, if any.
pub open spec fn index_of(es: Seq<Entry>, name: Seq<char>) -> Option<int> {
    if exists|i: int| 0 <= i < es.len() && es[i].0 == name {
        Some(choose|i: int| 0 <= i < es.len() && es[i].0 == name)
    } else {
        None
    }
}

/// The raw value held under this name: absent for an unknown name.
pub open spec fn value_of(es: Seq<Entry>, name: Seq<char>) -> Option<Seq<char>> {
    match index_of(es, name) {
        Some(i) => es[i].1.val,
        None => None,
    }
}

/// The long flag `--name`.
pub open spec fn long_form(name: Seq<char>) -> Seq<char> {
    seq!['-', '-'] + name
}

/// Whether the token is the option's short or long flag.
pub open spec fn names_option(e: Entry, t: Seq<char>) -> bool {
    t == short_form(e.1.flag) || t == long_form(e.0)
}

/// The first index at or after `s` that holds a flag, or the end of the
/// stream: the tokens in between are the run a list option takes.
pub open spec fn run_end(toks: Seq<Seq<char>>, s: int) -> int
    decreases toks.len() - s,
{
    if s >= toks.len() {
        toks.len() as int
    } else if flag_shaped(toks[s]) {
        s
    } else {
        run_end(toks, s + 1)
    }
}

/// The words joined with single spaces.
pub open spec fn join_words(ws: Seq<Seq<char>>) -> Seq<char>
    decreases ws.len(),
{
    if ws.len() == 0 {
        Seq::empty()
    } else if ws.len() == 1 {
        ws[0]
    } else {
        join_words(ws.drop_last()) + seq![' '] + ws.last()
    }
}

/// The option's flag at position `m` is not followed by the value its kind
/// needs.
pub open spec fn value_missing(kind: ArgType, toks: Seq<Seq<char>>, m: int) -> bool {
    match kind {
        ArgType::Option => m + 1 >= toks.len() || flag_shaped(toks[m + 1]),
        ArgType::List | ArgType::Dict => m + 1 >= toks.len(),
        _ => false,
    }
}

/// The token at `m` is a flag of the option that lacks its value.
pub open spec fn bad_at(e: Entry, toks: Seq<Seq<char>>, m: int) -> bool {
    names_option(e, toks[m]) && value_missing(e.1.kind, toks, m)
}

/// Some flag of the option in the stream lacks its value.
pub open spec fn has_bad(e: Entry, toks: Seq<Seq<char>>) -> bool {
    exists|m: int| 0 <= m < toks.len() && #[trigger] bad_at(e, toks, m)
}

/// The first entry at or after `k` whose flag lacks its value.
pub open spec fn first_bad_from(es: Seq<Entry>, toks: Seq<Seq<char>>, k: int) -> Option<int>
    decreases es.len() - k,
{
    if k < 0 || k >= es.len() {
        None
    } else if has_bad(es[k], toks) {
        Some(k)
    } else {
        first_bad_from(es, toks, k + 1)
    }
}

/// The last position before `j` that holds a flag of the option.
pub open spec fn last_match(e: Entry, toks: Seq<Seq<char>>, j: int) -> Option<int>
    decreases j,
{
    if j <= 0 {
        None
    } else if names_option(e, toks[j - 1]) {
        Some(j - 1)
    } else {
        last_match(e, toks, j - 1)
    }
}

/// How many positions before `j` hold a flag of the option.
pub open spec fn match_count(e: Entry, toks: Seq<Seq<char>>, j: int) -> nat
    decreases j,
{
    if j <= 0 {
        0
    } else if names_option(e, toks[j - 1]) {
        match_count(e, toks, j - 1) + 1
    } else {
        match_count(e, toks, j - 1)
    }
}

/// The value that a flag at position `m` gives an option of this kind; a
/// positional option keeps what it had.
pub open spec fn taken_value(kind: ArgType, toks: Seq<Seq<char>>, m: int, prior: Option<
    Seq<char>,
>) -> Option<Seq<char>> {
    match kind {
        ArgType::Flag => Some("true"@),
        ArgType::Option => Some(toks[m + 1]),
        ArgType::List | ArgType::Dict => Some(join_words(toks.subrange(m + 1, run_end(toks, m + 1)))),
        ArgType::Positional(_) => prior,
    }
}

/// The option's value once the flags before `j` are read: the last flag wins,
/// the default stands where there is none.
pub open spec fn flag_value(e: Entry, toks: Seq<Seq<char>>, j: int) -> Option<Seq<char>> {
    match last_match(e, toks, j) {
        Some(m) => taken_value(e.1.kind, toks, m, e.1.val),
        None => e.1.val,
    }
}

/// The option after its flags are read.
pub open spec fn after_flags(e: Entry, toks: Seq<Seq<char>>) -> ArgView {
    ArgView {
        val: flag_value(e, toks, toks.len() as int),
        count: match_count(e, toks, toks.len() as int),
        required: e.1.required,
        flag: e.1.flag,
        help: e.1.help,
        kind: e.1.kind,
    }
}

/// The flag of the option at position `m` takes the token at `x`: the flag
/// itself, the value of a value option, the run of a list option.
pub open spec fn claim(e: Entry, toks: Seq<Seq<char>>, m: int, x: int) -> bool {
    &&& names_option(e, toks[m])
    &&& {
        ||| x == m
        ||| e.1.kind == ArgType::Option && x == m + 1
        ||| (e.1.kind == ArgType::List || e.1.kind == ArgType::Dict) && m < x < run_end(toks, m + 1)
    }
}

/// Some flag of the option takes the token at `x`.
pub open spec fn claimed_by(e: Entry, toks: Seq<Seq<char>>, x: int) -> bool {
    exists|m: int| 0 <= m < toks.len() && #[trigger] claim(e, toks, m, x)
}

/// Some declared option takes the token at `x`.
pub open spec fn consumed(es: Seq<Entry>, toks: Seq<Seq<char>>, x: int) -> bool {
    exists|k: int| 0 <= k < es.len() && #[trigger] claimed_by(es[k], toks, x)
}

/// The tokens at positions `1..j` that no option takes, in order.
pub open spec fn unclaimed(es: Seq<Entry>, toks: Seq<Seq<char>>, j: int) -> Seq<Seq<char>>
    decreases j,
{
    if j <= 1 {
        Seq::empty()
    } else if consumed(es, toks, j - 1) {
        unclaimed(es, toks, j - 1)
    } else {
        unclaimed(es, toks, j - 1).push(toks[j - 1])
    }
}

/// The value of the option once positions are resolved: a positional option
/// still without a value takes the free token at its index, if there is one.
pub open spec fn final_value(es: Seq<Entry>, toks: Seq<Seq<char>>, k: int) -> Option<Seq<char>> {
    let fv = flag_value(es[k], toks, toks.len() as int);
    let free = unclaimed(es, toks, toks.len() as int);
    match es[k].1.kind {
        ArgType::Positional(i) => if fv is None && (i as int) < free.len() {
            Some(free[i as int])
        } else {
            fv
        },
        _ => fv,
    }
}

/// The entry of the outcome for the `k`-th option.
pub open spec fn resolved_entry(es: Seq<Entry>, toks: Seq<Seq<char>>, k: int) -> Entry {
    let a = after_flags(es[k], toks);
    (es[k].0, ArgView { val: final_value(es, toks, k), ..a })
}

/// The outcome entries, one for each option, in order.
pub open spec fn resolved(es: Seq<Entry>, toks: Seq<Seq<char>>) -> Seq<Entry> {
    Seq::new(es.len(), |k: int| resolved_entry(es, toks, k))
}

/// Some required option has no value.
pub open spec fn missing_required(es: Seq<Entry>) -> bool {
    exists|k: int| 0 <= k < es.len() && es[k].1.required && es[k].1.val is None
}

/// What parsing the normalized tokens against the declarations gives.
pub open spec fn parse_model(es: Seq<Entry>, toks: Seq<Seq<char>>) -> Result<Seq<Entry>, Failure> {
    if es.len() == 0 {
        Err(Failure::EmptyRegistry)
    } else {
        match first_bad_from(es, toks, 0) {
            Some(k) => Err(Failure::MissingValue(es[k].0)),
            None => if missing_required(resolved(es, toks)) {
                Err(Failure::MissingRequired)
            } else {
                Ok(resolved(es, toks))
            },
        }
    }
}

} // verus!
