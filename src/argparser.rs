//! Option declarations, the parsing engine, and extraction of typed values.
//!
//! Parsing is stateless: `ArgParser::parse` never changes the declarations
//! and returns a fresh outcome on every call, so one parser can be used for
//! any number of token streams.
use vstd::prelude::*;

use crate::model::{
    after_flags, bad_at, claim, claimed_by, consumed, first_bad_from, flag_value, has_bad, index_of,
    join_words, long_form, match_count, names_option, names_unique, parse_model, resolved,
    resolved_entry, run_end, unclaimed, value_of, ArgView, Entry, Failure,
};
use crate::convert::parse_text;
use crate::help::{help_text, option_block, option_blocks, usage_parts};
use crate::tokens::{is_any_flag, push_char, separate_flags, separated, short_form, views};

verus! {

/// The different kinds of arguments supported.
#[derive(Debug, Clone, Copy, PartialEq, Eq, Structural)]
pub enum ArgType {
    /// An argument that takes a value, as in `./go --pic lol.jpg`.
    Option,
    /// An argument that is a simple switch, as in `rustc --version`.
    Flag,
    /// Like `Option`, but takes every value up to the next flag, as in
    /// `./go --pics 1.png 2.png 3.png`.
    List,
    /// Like `List`, but the values are colon-split key-value pairs, as in
    /// `./go --pics Monday:1.jpg Tuesday:2.jpg`.
    Dict,
    /// A positional argument, as in `rustc lib.rs`. The number is its index
    /// among the tokens that no flag takes (`Positional(0)` is the first).
    Positional(u8),
}

impl ArgType {
    /// Whether this is a positional argument.
    pub fn is_positional(&self) -> (r: bool)
        ensures
            r == (*self is Positional),
    {
        match self {
            ArgType::Positional(_) => true,
            _ => false,
        }
    }

    /// The kind's name, as the help text shows it.
    pub fn name(&self) -> (r: &'static str)
        ensures
            r@ == kind_name(*self),
    {
        match self {
            ArgType::Option => "Option",
            ArgType::Flag => "Flag",
            ArgType::List => "List",
            ArgType::Dict => "Dict",
            ArgType::Positional(_) => "Positional",
        }
    }
}

/// The kind's name, as the help text shows it.
pub open spec fn kind_name(k: ArgType) -> Seq<char> {
    match k {
        ArgType::Option => "Option"@,
        ArgType::Flag => "Flag"@,
        ArgType::List => "List"@,
        ArgType::Dict => "Dict"@,
        ArgType::Positional(_) => "Positional"@,
    }
}

/// One declared option and its current value.
#[derive(Debug, Clone)]
pub(crate) struct Arg {
    pub(crate) val: Option<String>,
    pub(crate) count: usize,
    pub(crate) required: bool,
    pub(crate) flag: char,
    pub(crate) help: String,
    pub(crate) type_: ArgType,
}

/// The characters of an optional string.
pub open spec fn opt_view(o: Option<String>) -> Option<Seq<char>> {
    match o {
        Some(s) => Some(s@),
        None => None,
    }
}

/// The characters of an optional string slice.
pub open spec fn opt_str_view(o: Option<&str>) -> Option<Seq<char>> {
    match o {
        Some(s) => Some(s@),
        None => None,
    }
}

impl Arg {
    pub(crate) closed spec fn view(&self) -> ArgView {
        ArgView {
            val: opt_view(self.val),
            count: self.count as nat,
            required: self.required,
            flag: self.flag,
            help: self.help@,
            kind: self.type_,
        }
    }
}

/// The entries' views, in order.
pub(crate) closed spec fn entry_views(v: Seq<(String, Arg)>) -> Seq<Entry> {
    v.map_values(|p: (String, Arg)| (p.0@, p.1.view()))
}

/// A declared option before any parsing.
pub open spec fn declared(
    default: Option<Seq<char>>,
    flag: char,
    required: bool,
    help: Seq<char>,
    kind: ArgType,
) -> ArgView {
    ArgView { val: default, count: 0, required, flag, help, kind }
}

fn copy_opt(o: &Option<String>) -> (r: Option<String>)
    ensures
        opt_view(r) == opt_view(*o),
{
    match o {
        Some(s) => Some(s.clone()),
        None => None,
    }
}

fn copy_arg(a: &Arg) -> (r: Arg)
    ensures
        r.view() == a.view(),
{
    Arg {
        val: copy_opt(&a.val),
        count: a.count,
        required: a.required,
        flag: a.flag,
        help: a.help.clone(),
        type_: a.type_,
    }
}

/// The index of the entry named `key`.
fn find_entry(v: &Vec<(String, Arg)>, key: &String) -> (r: Option<usize>)
    requires
        names_unique(entry_views(v@)),
    ensures
        match r {
            Some(i) => index_of(entry_views(v@), key@) == Some(i as int),
            None => index_of(entry_views(v@), key@) is None,
        },
{
    let ghost es = entry_views(v@);
    let mut i: usize = 0;
    while i < v.len()
        invariant
            i <= v@.len(),
            es == entry_views(v@),
            names_unique(es),
            forall|j: int| 0 <= j < i ==> es[j].0 != key@,
        decreases v@.len() - i,
    {
        if v[i].0 == *key {
            assert(es[i as int].0 == key@);
            assert(index_of(es, key@) == Some(i as int)) by {
                let c = choose|j: int| 0 <= j < es.len() && es[j].0 == key@;
                assert(c == i) by {
                    if c < i {
                    } else if c > i {
                        assert(es[i as int].0 != es[c].0);
                    }
                }
            }
            return Some(i);
        }
        i = i + 1;
    }
    None
}

/// A set of option declarations that token streams are parsed against.
#[derive(Debug, Clone)]
pub struct ArgParser {
    pub(crate) arguments: Vec<(String, Arg)>,
    pub(crate) name: String,
}

impl ArgParser {
    /// The declared options, in the order they were first declared.
    pub closed spec fn entries(&self) -> Seq<Entry> {
        entry_views(self.arguments@)
    }

    /// The program name shown in help messages.
    pub closed spec fn program(&self) -> Seq<char> {
        self.name@
    }

    /// Option names are unique.
    pub open spec fn wf(&self) -> bool {
        names_unique(self.entries())
    }

    /// A parser for the named program, with the built-in `help` switch
    /// (`--help`, `-h`) already declared.
    pub fn new(name: String) -> (r: ArgParser)
        ensures
            r.wf(),
            r.program() == name@,
            r.entries() == seq![
                ("help"@, declared(Some("false"@), 'h', false, "Show this help message"@, ArgType::Flag)),
            ],
    {
        let mut me = ArgParser { arguments: Vec::new(), name };
        assert(me.entries() =~= Seq::<Entry>::empty());
        me.add_opt("help", Some("false"), 'h', false, "Show this help message", ArgType::Flag);
        assert(me.entries() =~= seq![
            ("help"@, declared(Some("false"@), 'h', false, "Show this help message"@, ArgType::Flag)),
        ]);
        me
    }

    /// Declares an option; a declaration under the same name is replaced in
    /// place.
    pub fn add_opt(
        &mut self,
        name: &str,
        default: Option<&str>,
        flag: char,
        required: bool,
        help: &str,
        type_: ArgType,
    )
        requires
            old(self).wf(),
        ensures
            final(self).wf(),
            final(self).program() == old(self).program(),
            ({
                let d = (name@, declared(opt_str_view(default), flag, required, help@, type_));
                match index_of(old(self).entries(), name@) {
                    Some(i) => final(self).entries() == old(self).entries().update(i, d),
                    None => final(self).entries() == old(self).entries().push(d),
                }
            }),
    {
        let val = match default {
            Some(d) => Some(String::from_str(d)),
            None => None,
        };
        let o = Arg { val, count: 0, required, flag, help: String::from_str(help), type_ };
        let key = String::from_str(name);
        let ghost d = (name@, declared(opt_str_view(default), flag, required, help@, type_));
        assert(o.view() == d.1);
        match find_entry(&self.arguments, &key) {
            Some(i) => {
                self.arguments[i] = (key, o);
                assert(self.entries() =~= old(self).entries().update(i as int, d));
            },
            None => {
                self.arguments.push((key, o));
                assert(self.entries() =~= old(self).entries().push(d));
            },
        }
    }

    /// Removes an option from parsing consideration; fails if no option has
    /// that name.
    pub fn remove_opt(&mut self, name: &str) -> (r: Result<(), &'static str>)
        requires
            old(self).wf(),
        ensures
            final(self).wf(),
            final(self).program() == old(self).program(),
            match index_of(old(self).entries(), name@) {
                Some(i) => r is Ok && final(self).entries() == old(self).entries().remove(i),
                None => r is Err && r->Err_0@ == "No such Option"@ && final(self).entries() == old(
                    self,
                ).entries(),
            },
    {
        let key = String::from_str(name);
        match find_entry(&self.arguments, &key) {
            Some(i) => {
                self.arguments.remove(i);
                assert(self.entries() =~= old(self).entries().remove(i as int));
                Ok(())
            },
            None => Err("No such Option"),
        }
    }
}

/// Why a token stream was rejected.
#[derive(Debug, Clone, PartialEq, Eq)]
pub enum ParseError {
    /// No option is declared.
    EmptyRegistry,
    /// The named option's flag is not followed by the value it needs.
    MissingValue(String),
    /// Some required option has no value.
    MissingRequired,
}

impl ParseError {
    /// What the error says, as a value of the model.
    pub open spec fn view(&self) -> Failure {
        match self {
            ParseError::EmptyRegistry => Failure::EmptyRegistry,
            ParseError::MissingValue(s) => Failure::MissingValue(s@),
            ParseError::MissingRequired => Failure::MissingRequired,
        }
    }

    /// A sentence describing the error.
    pub fn message(&self) -> (r: String)
        ensures
            r@ == match self {
                ParseError::EmptyRegistry => "No arguments given to parse"@,
                ParseError::MissingValue(s) => "This option `"@ + s@
                    + "` requires a value you have not provided"@,
                ParseError::MissingRequired => "Not all required arguments are found"@,
            },
    {
        match self {
            ParseError::EmptyRegistry => String::from_str("No arguments given to parse"),
            ParseError::MissingValue(s) => {
                let mut m = String::from_str("This option `");
                m.append(s.as_str());
                m.append("` requires a value you have not provided");
                m
            },
            ParseError::MissingRequired => String::from_str("Not all required arguments are found"),
        }
    }
}

/// The outcome of a successful parse: each declared option with its resolved
/// raw value and the number of times its flag was matched.
#[derive(Debug, Clone)]
pub struct ArgParseResults {
    arguments: Vec<(String, Arg)>,
    name: String,
}

/// The result of `ArgParser::parse`.
pub type ParseResult = Result<ArgParseResults, ParseError>;

/// A parse result as a value of the model.
pub open spec fn outcome_view(r: ParseResult) -> Result<Seq<Entry>, Failure> {
    match r {
        Ok(p) => Ok(p.entries()),
        Err(e) => Err(e.view()),
    }
}

impl ArgParseResults {
    /// Each option with its resolved value and match count, in declaration
    /// order.
    pub closed spec fn entries(&self) -> Seq<Entry> {
        entry_views(self.arguments@)
    }

    /// The program name of the parser that produced this outcome.
    pub closed spec fn program(&self) -> Seq<char> {
        self.name@
    }

    /// Option names are unique.
    pub open spec fn wf(&self) -> bool {
        names_unique(self.entries())
    }
}

fn copy_strings(v: &Vec<String>) -> (r: Vec<String>)
    ensures
        r@ == v@,
{
    let mut r: Vec<String> = Vec::new();
    let mut i: usize = 0;
    while i < v.len()
        invariant
            i <= v@.len(),
            r@ == v@.subrange(0, i as int),
        decreases v@.len() - i,
    {
        r.push(v[i].clone());
        i = i + 1;
        assert(r@ =~= v@.subrange(0, i as int));
    }
    assert(v@.subrange(0, v@.len() as int) =~= v@);
    r
}

/// The first position at or after `s` that holds a flag, or the length.
fn find_run_end(toks: &Vec<String>, s: usize) -> (e: usize)
    requires
        s <= toks@.len(),
    ensures
        e as int == run_end(views(toks@), s as int),
        s <= e <= toks@.len(),
{
    let ghost t = views(toks@);
    let mut e: usize = s;
    while e < toks.len() && !is_any_flag(toks[e].as_str())
        invariant
            s <= e <= toks@.len(),
            t == views(toks@),
            run_end(t, s as int) == run_end(t, e as int),
        decreases toks@.len() - e,
    {
        e = e + 1;
    }
    e
}

/// The tokens at `s..e` joined with single spaces.
fn join_range(toks: &Vec<String>, s: usize, e: usize) -> (r: String)
    requires
        s <= e <= toks@.len(),
    ensures
        r@ == join_words(views(toks@).subrange(s as int, e as int)),
{
    let ghost t = views(toks@);
    let mut r = String::new();
    let mut i: usize = s;
    while i < e
        invariant
            s <= i <= e <= toks@.len(),
            t == views(toks@),
            r@ == join_words(t.subrange(s as int, i as int)),
        decreases e - i,
    {
        if i > s {
            push_char(&mut r, ' ');
        }
        r.append(toks[i].as_str());
        let ghost ws = t.subrange(s as int, i + 1);
        assert(ws.drop_last() =~= t.subrange(s as int, i as int));
        i = i + 1;
    }
    r
}

/// Reads every flag of one option in the stream: counts the matches, takes
/// the value the last one gives, and marks the tokens the flags take. `None`
/// where a flag lacks the value its kind needs.
fn scan_option(toks: &Vec<String>, name: &String, a: &Arg, taken: &mut Vec<bool>) -> (r: Option<Arg>)
    requires
        old(taken)@.len() == toks@.len(),
    ensures
        final(taken)@.len() == toks@.len(),
        r is None <==> has_bad((name@, a.view()), views(toks@)),
        r is Some ==> r->0.view() == after_flags((name@, a.view()), views(toks@)),
        r is Some ==> forall|x: int|
            0 <= x < toks@.len() ==> final(taken)@[x] == (old(taken)@[x] || claimed_by(
                (name@, a.view()),
                views(toks@),
                x,
            )),
{
    let ghost e: Entry = (name@, a.view());
    let ghost t = views(toks@);
    let n = toks.len();
    let mut short = String::new();
    push_char(&mut short, '-');
    push_char(&mut short, a.flag);
    assert(short@ =~= short_form(a.flag));
    let mut long = String::from_str("--");
    long.append(name.as_str());
    proof {
        reveal_strlit("--");
    }
    assert(long@ =~= long_form(name@));
    let mut val = copy_opt(&a.val);
    let mut count: usize = 0;
    let mut j: usize = 0;
    while j < n
        invariant
            n == toks@.len(),
            t == views(toks@),
            e == (name@, a.view()),
            short@ == short_form(a.flag),
            long@ == long_form(name@),
            j <= n,
            taken@.len() == n,
            opt_view(val) == flag_value(e, t, j as int),
            count == match_count(e, t, j as int),
            count <= j,
            forall|m: int| 0 <= m < j ==> !#[trigger] bad_at(e, t, m),
            forall|x: int|
                0 <= x < n ==> taken@[x] == (old(taken)@[x] || exists|m: int|
                    0 <= m < j && #[trigger] claim(e, t, m, x)),
        decreases n - j,
    {
        let ghost prev = taken@;
        let hit = toks[j] == short || toks[j] == long;
        if hit {
            assert(names_option(e, t[j as int]));
            count = count + 1;
            taken[j] = true;
            match a.type_ {
                ArgType::Flag => {
                    val = Some(String::from_str("true"));
                },
                ArgType::Option => {
                    if j + 1 >= n || is_any_flag(toks[j + 1].as_str()) {
                        assert(bad_at(e, t, j as int));
                        return None;
                    }
                    val = Some(toks[j + 1].clone());
                    taken[j + 1] = true;
                },
                ArgType::List | ArgType::Dict => {
                    if j + 1 >= n {
                        assert(bad_at(e, t, j as int));
                        return None;
                    }
                    let end = find_run_end(toks, j + 1);
                    val = Some(join_range(toks, j + 1, end));
                    let ghost mid = taken@;
                    let mut q: usize = j + 1;
                    while q < end
                        invariant
                            j + 1 <= q <= end <= n,
                            end as int == run_end(t, j + 1),
                            mid == prev.update(j as int, true),
                            taken@.len() == n,
                            forall|x: int| 0 <= x < n ==> taken@[x] == (mid[x] || (j + 1 <= x < q)),
                        decreases end - q,
                    {
                        taken[q] = true;
                        q = q + 1;
                    }
                    assert(mid == prev.update(j as int, true));
                    assert forall|x: int| 0 <= x < n implies taken@[x] == (prev[x] || x == j || (j
                        + 1 <= x < run_end(t, j + 1))) by {
                        assert(taken@[x] == (mid[x] || (j + 1 <= x < q)));
                        if x == j {
                            assert(mid[x]);
                        } else {
                            assert(mid[x] == prev[x]);
                        }
                    }
                },
                ArgType::Positional(_) => {},
            }
        }
        assert(t[j as int] == toks@[j as int]@);
        assert forall|x: int| 0 <= x < n implies taken@[x] == (prev[x] || claim(e, t, j as int, x)) by {
            if hit {
                assert(names_option(e, t[j as int]));
                if a.type_ == ArgType::Option {
                    assert(taken@[x] == (prev[x] || x == j || x == j + 1));
                } else if a.type_ == ArgType::List || a.type_ == ArgType::Dict {
                    assert(j + 1 < n);
                    assert(taken@[x] == (prev[x] || x == j || (j + 1 <= x < run_end(t, j + 1))));
                } else {
                    assert(taken@[x] == (prev[x] || x == j));
                }
            } else {
                assert(!names_option(e, t[j as int]));
                assert(taken@[x] == prev[x]);
            }
        }
        assert(!bad_at(e, t, j as int));
        assert forall|x: int| 0 <= x < n implies taken@[x] == (old(taken)@[x] || exists|m: int|
            0 <= m < j + 1 && #[trigger] claim(e, t, m, x)) by {
            let before = exists|m: int| 0 <= m < j && #[trigger] claim(e, t, m, x);
            let after = exists|m: int| 0 <= m < j + 1 && #[trigger] claim(e, t, m, x);
            assert(prev[x] == (old(taken)@[x] || before));
            if before {
                let m = choose|m: int| 0 <= m < j && #[trigger] claim(e, t, m, x);
                assert(0 <= m < j + 1 && claim(e, t, m, x));
            }
            if claim(e, t, j as int, x) {
                assert(0 <= j < j + 1 && claim(e, t, j as int, x));
            }
            if after {
                let m = choose|m: int| 0 <= m < j + 1 && #[trigger] claim(e, t, m, x);
                if m < j {
                    assert(0 <= m < j && claim(e, t, m, x));
                }
            }
        }
        j = j + 1;
    }
    Some(Arg { val, count, required: a.required, flag: a.flag, help: a.help.clone(), type_: a.type_ })
}

impl ArgParser {
    /// Parses a token stream (the program name first) against the declared
    /// options.
    ///
    /// Bundled short flags are split first. Each option then reads its flags
    /// (`-f` or `--name`): a switch becomes `"true"`, a value option takes the
    /// next token, a list option takes every token up to the next flag, joined
    /// with single spaces; the last flag wins. Positional options still without
    /// a value then take the token at their index among those no flag took,
    /// the program name left out. Fails on an empty registry, on the first
    /// option (in declaration order) whose flag lacks its value, and where a
    /// required option ends without a value.
    pub fn parse(&self, args: &Vec<String>) -> (r: ParseResult)
        requires
            self.wf(),
        ensures
            outcome_view(r) == parse_model(self.entries(), separated(views(args@))),
            r is Ok ==> r->Ok_0.wf() && r->Ok_0.program() == self.program(),
    {
        if self.arguments.len() == 0 {
            return Err(ParseError::EmptyRegistry);
        }
        let argvec = separate_flags(copy_strings(args));
        let ghost t = views(argvec@);
        let ghost es = self.entries();
        let n = argvec.len();
        let mut taken: Vec<bool> = Vec::new();
        let mut i: usize = 0;
        while i < n
            invariant
                i <= n,
                taken@.len() == i,
                forall|x: int| 0 <= x < i ==> !taken@[x],
            decreases n - i,
        {
            taken.push(false);
            i = i + 1;
        }
        let mut flagged: Vec<(String, Arg)> = Vec::new();
        let mut k: usize = 0;
        while k < self.arguments.len()
            invariant
                n == argvec@.len(),
                t == views(argvec@),
                t == separated(views(args@)),
                es == self.entries(),
                es.len() > 0,
                k <= es.len(),
                taken@.len() == n,
                forall|x: int|
                    0 <= x < n ==> taken@[x] == exists|k2: int|
                        0 <= k2 < k && #[trigger] claimed_by(es[k2], t, x),
                first_bad_from(es, t, 0) == first_bad_from(es, t, k as int),
                entry_views(flagged@) == Seq::new(k as nat, |q: int| (es[q].0, after_flags(es[q], t))),
            decreases es.len() - k,
        {
            let nm = &self.arguments[k].0;
            let a = &self.arguments[k].1;
            assert(es[k as int] == (nm@, a.view()));
            let ghost before = taken@;
            match scan_option(&argvec, nm, a, &mut taken) {
                None => {
                    assert(first_bad_from(es, t, k as int) == Some(k as int));
                    return Err(ParseError::MissingValue(nm.clone()));
                },
                Some(na) => {
                    let ghost fl = flagged@;
                    flagged.push((nm.clone(), na));
                    assert(entry_views(flagged@) =~= entry_views(fl).push((es[k as int].0, after_flags(es[k as int], t))));
                    assert forall|x: int| 0 <= x < n implies taken@[x] == exists|k2: int|
                        0 <= k2 < k + 1 && #[trigger] claimed_by(es[k2], t, x) by {
                        let was = exists|k2: int| 0 <= k2 < k && #[trigger] claimed_by(es[k2], t, x);
                        let now = exists|k2: int| 0 <= k2 < k + 1 && #[trigger] claimed_by(es[k2], t, x);
                        assert(before[x] == was);
                        if was {
                            let k2 = choose|k2: int| 0 <= k2 < k && #[trigger] claimed_by(es[k2], t, x);
                            assert(0 <= k2 < k + 1 && claimed_by(es[k2], t, x));
                        }
                        if claimed_by(es[k as int], t, x) {
                            assert(0 <= k < k + 1 && claimed_by(es[k as int], t, x));
                        }
                        if now {
                            let k2 = choose|k2: int| 0 <= k2 < k + 1 && #[trigger] claimed_by(es[k2], t, x);
                            if k2 < k {
                                assert(0 <= k2 < k && claimed_by(es[k2], t, x));
                            }
                        }
                    }
                },
            }
            k = k + 1;
        }
        assert(first_bad_from(es, t, 0) is None);
        assert forall|x: int| 0 <= x < n implies taken@[x] == consumed(es, t, x) by {
            assert(taken@[x] == exists|k2: int| 0 <= k2 < es.len() && #[trigger] claimed_by(es[k2], t, x));
        }
        let mut free: Vec<String> = Vec::new();
        assert(views(free@) =~= unclaimed(es, t, 1));
        let mut j: usize = 1;
        while j < n
            invariant
                n == argvec@.len(),
                t == views(argvec@),
                es == self.entries(),
                taken@.len() == n,
                forall|x: int| 0 <= x < n ==> taken@[x] == consumed(es, t, x),
                1 <= j,
                j <= n || j == 1,
                views(free@) == unclaimed(es, t, j as int),
            decreases n - j,
        {
            let ghost fr = free@;
            assert(t[j as int] == argvec@[j as int]@);
            if !taken[j] {
                free.push(argvec[j].clone());
                assert(views(free@) =~= views(fr).push(t[j as int]));
            }
            j = j + 1;
        }
        if n <= 1 {
            assert(unclaimed(es, t, n as int) =~= unclaimed(es, t, 1));
        }
        assert(views(free@) == unclaimed(es, t, n as int));
        let ghost fv = entry_views(flagged@);
        let mut res: Vec<(String, Arg)> = Vec::new();
        let mut q: usize = 0;
        while q < flagged.len()
            invariant
                t == views(argvec@),
                es == self.entries(),
                n == t.len(),
                fv == entry_views(flagged@),
                fv == Seq::new(es.len(), |q: int| (es[q].0, after_flags(es[q], t))),
                views(free@) == unclaimed(es, t, n as int),
                q <= fv.len(),
                entry_views(res@) == Seq::new(q as nat, |p: int| resolved_entry(es, t, p)),
            decreases fv.len() - q,
        {
            let nm = flagged[q].0.clone();
            let mut a = copy_arg(&flagged[q].1);
            assert(fv[q as int] == (es[q as int].0, after_flags(es[q as int], t)));
            assert(a.view() == fv[q as int].1);
            assert(nm@ == es[q as int].0);
            match a.type_ {
                ArgType::Positional(p) => {
                    if a.val.is_none() && (p as usize) < free.len() {
                        a.val = Some(free[p as usize].clone());
                    }
                },
                _ => {},
            }
            assert(a.view() == resolved_entry(es, t, q as int).1);
            let ghost rs = res@;
            res.push((nm, a));
            assert(entry_views(res@) =~= entry_views(rs).push(resolved_entry(es, t, q as int)));
            q = q + 1;
        }
        let ghost rv = resolved(es, t);
        assert(entry_views(res@) =~= rv);
        let mut q: usize = 0;
        while q < res.len()
            invariant
                rv == entry_views(res@),
                rv == resolved(es, t),
                t == separated(views(args@)),
                es == self.entries(),
                es.len() > 0,
                first_bad_from(es, t, 0) is None,
                q <= rv.len(),
                forall|p: int| 0 <= p < q ==> !(rv[p].1.required && rv[p].1.val is None),
            decreases rv.len() - q,
        {
            if res[q].1.required && res[q].1.val.is_none() {
                assert(rv[q as int].1.required && rv[q as int].1.val is None);
                return Err(ParseError::MissingRequired);
            }
            q = q + 1;
        }
        let out = ArgParseResults { arguments: res, name: self.name.clone() };
        assert(out.entries() == rv);
        assert forall|a: int, b: int| 0 <= a < b < rv.len() implies rv[a].0 != rv[b].0 by {
            assert(rv[a].0 == es[a].0);
            assert(rv[b].0 == es[b].0);
        }
        Ok(out)
    }
}

/// Something that turns the raw text of an option into a value of type `T`;
/// implemented for every `FnOnce(&str) -> Option<T>`, such as `vec_parser`
/// and `hashmap_parser`.
pub trait ArgGetter<T> {
    /// Whether the converter may be applied to this text.
    spec fn accepts(&self, s: &str) -> bool;

    /// Whether `r` is a result the converter may give for this text.
    spec fn gives(&self, s: &str, r: Option<T>) -> bool;

    /// Converts the raw text, `None` where it does not convert.
    fn get_arg(self, s: &str) -> (r: Option<T>)
        requires
            self.accepts(s),
        ensures
            self.gives(s, r),
    ;
}

impl<T, F: FnOnce(&str) -> Option<T>> ArgGetter<T> for F {
    open spec fn accepts(&self, s: &str) -> bool {
        call_requires(*self, (s,))
    }

    open spec fn gives(&self, s: &str, r: Option<T>) -> bool {
        call_ensures(*self, (s,), r)
    }

    fn get_arg(self, s: &str) -> (r: Option<T>) {
        self(s)
    }
}

impl ArgParseResults {
    /// The resolved raw value of the named option: `None` for an unknown
    /// name or an option that got no value.
    pub fn value(&self, name: &str) -> (r: Option<String>)
        requires
            self.wf(),
        ensures
            opt_view(r) == value_of(self.entries(), name@),
    {
        let key = String::from_str(name);
        match find_entry(&self.arguments, &key) {
            Some(i) => copy_opt(&self.arguments[i].1.val),
            None => None,
        }
    }

    /// How many times the named option's flag was matched: `None` for an
    /// unknown name.
    pub fn count(&self, name: &str) -> (r: Option<usize>)
        requires
            self.wf(),
        ensures
            match index_of(self.entries(), name@) {
                Some(i) => r == Some(self.entries()[i].1.count as usize),
                None => r is None,
            },
    {
        let key = String::from_str(name);
        match find_entry(&self.arguments, &key) {
            Some(i) => Some(self.arguments[i].1.count),
            None => None,
        }
    }

    /// The named option's value read as a `T` through its `FromStr` impl:
    /// `None` for an unknown name, an option without a value, or text that
    /// does not convert.
    pub fn get<T: std::str::FromStr>(&self, name: &str) -> (r: Option<T>)
        requires
            self.wf(),
        ensures
            value_of(self.entries(), name@) is None ==> r is None,
    {
        match self.value(name) {
            Some(v) => parse_text(v.as_str()),
            None => None,
        }
    }

    /// The named option's value converted by `parser`: `None` for an unknown
    /// name or an option without a value; otherwise what `parser` gives for
    /// the raw value.
    pub fn get_with<T, P: ArgGetter<T>>(&self, name: &str, parser: P) -> (r: Option<T>)
        requires
            self.wf(),
            forall|s: &str| parser.accepts(s),
        ensures
            value_of(self.entries(), name@) is None ==> r is None,
            value_of(self.entries(), name@) is Some ==> exists|s: &str|
                s@ == value_of(self.entries(), name@)->0 && #[trigger] parser.gives(s, r),
    {
        match self.value(name) {
            Some(v) => parser.get_arg(v.as_str()),
            None => None,
        }
    }
}

/// Appends the description of one option.
fn push_block(out: &mut String, nm: &String, a: &Arg)
    ensures
        final(out)@ == old(out)@ + option_block((nm@, a.view())),
{
    let ghost o = out@;
    out.append("--");
    out.append(nm.as_str());
    out.append(" (-");
    push_char(out, a.flag);
    out.append(")\t");
    out.append("Required: ");
    out.append(if a.required { "true" } else { "false" });
    out.append("\t");
    out.append("Type: ");
    out.append(a.type_.name());
    out.append("\n");
    out.append("\t");
    crate::help::push_wrapped(out, &a.help);
    out.append("\n\n");
    assert(out@ =~= o + option_block((nm@, a.view())));
}

impl ArgParser {
    /// The help text: a usage line listing every option, then each option's
    /// flags, whether it is required, its kind, and its help text wrapped
    /// after column 60.
    pub fn help(&self) -> (r: String)
        ensures
            r@ == help_text(self.program(), self.entries()),
    {
        let ghost es = self.entries();
        let mut out = String::from_str("Usage:\t./");
        out.append(self.name.as_str());
        out.append(" ");
        let ghost head = out@;
        let mut k: usize = 0;
        while k < self.arguments.len()
            invariant
                k <= es.len(),
                es == self.entries(),
                out@ == head + usage_parts(es.subrange(0, k as int)),
            decreases es.len() - k,
        {
            let nm = &self.arguments[k].0;
            let a = &self.arguments[k].1;
            assert(es[k as int].0 == nm@ && es[k as int].1.kind == a.type_);
            out.append("[--");
            out.append(nm.as_str());
            out.append(" ");
            crate::help::ops(&mut out, nm, a.type_);
            out.append("] ");
            assert(es.subrange(0, k + 1).drop_last() =~= es.subrange(0, k as int));
            k = k + 1;
        }
        assert(es.subrange(0, es.len() as int) =~= es);
        out.append("\n");
        out.append("Options:\n\n");
        let ghost mid = out@;
        let mut k: usize = 0;
        while k < self.arguments.len()
            invariant
                k <= es.len(),
                es == self.entries(),
                out@ == mid + option_blocks(es.subrange(0, k as int)),
            decreases es.len() - k,
        {
            let nm = &self.arguments[k].0;
            let a = &self.arguments[k].1;
            assert(es[k as int] == (nm@, a.view()));
            push_block(&mut out, nm, a);
            assert(es.subrange(0, k + 1).drop_last() =~= es.subrange(0, k as int));
            k = k + 1;
        }
        assert(es.subrange(0, es.len() as int) =~= es);
        assert(out@ =~= help_text(self.program(), self.entries()));
        out
    }
}

} // verus!
