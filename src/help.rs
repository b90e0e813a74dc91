//! The help text: a usage line and a description of each option.
use vstd::prelude::*;

use crate::argparser::{kind_name, ArgType};
use crate::convert::{is_ws, whitespace};
use crate::model::Entry;

verus! {

/// What `char::to_uppercase` gives first for a character.
pub uninterp spec fn upper_of(c: char) -> char;

/// Relies on `char::to_uppercase`: the first character of the uppercase
/// mapping (the character itself where the mapping is empty).
#[verifier::external_body]
fn upper_char(c: char) -> (r: char)
    ensures
        r == upper_of(c),
{
    c.to_uppercase().next().unwrap_or(c)
}

/// The name in upper case, one character for one.
pub open spec fn upper(s: Seq<char>) -> Seq<char> {
    s.map_values(|c: char| upper_of(c))
}

/// What the usage line shows after `--name` for an option of this kind.
pub open spec fn placeholder(name: Seq<char>, kind: ArgType) -> Seq<char> {
    match kind {
        ArgType::Option => upper(name),
        ArgType::List => upper(name) + "..."@,
        ArgType::Dict => "k:v k2:v2..."@,
        _ => Seq::empty(),
    }
}

/// The help text laid out from position `i` of the current line: after a
/// whitespace character past column 60 the text breaks onto a new, indented
/// line.
pub open spec fn wrap_from(s: Seq<char>, i: int) -> Seq<char>
    decreases s.len(),
{
    if s.len() == 0 {
        Seq::empty()
    } else if i > 60 && whitespace(s[0]) {
        seq![s[0]] + "\n\t\t"@ + wrap_from(s.drop_first(), 1)
    } else {
        seq![s[0]] + wrap_from(s.drop_first(), i + 1)
    }
}

/// `true` or `false`.
pub open spec fn bool_text(b: bool) -> Seq<char> {
    if b {
        "true"@
    } else {
        "false"@
    }
}

/// The usage line's part for one option.
pub open spec fn usage_part(e: Entry) -> Seq<char> {
    "[--"@ + e.0 + " "@ + placeholder(e.0, e.1.kind) + "] "@
}

/// The description of one option.
pub open spec fn option_block(e: Entry) -> Seq<char> {
    "--"@ + e.0 + " (-"@ + seq![e.1.flag] + ")\t"@ + "Required: "@ + bool_text(e.1.required) + "\t"@
        + "Type: "@ + kind_name(e.1.kind) + "\n"@ + "\t"@ + wrap_from(e.1.help, 0) + "\n\n"@
}

/// The usage parts of all options, in order.
pub open spec fn usage_parts(es: Seq<Entry>) -> Seq<char>
    decreases es.len(),
{
    if es.len() == 0 {
        Seq::empty()
    } else {
        usage_parts(es.drop_last()) + usage_part(es.last())
    }
}

/// The descriptions of all options, in order.
pub open spec fn option_blocks(es: Seq<Entry>) -> Seq<char>
    decreases es.len(),
{
    if es.len() == 0 {
        Seq::empty()
    } else {
        option_blocks(es.drop_last()) + option_block(es.last())
    }
}

/// The whole help text of a program with these options.
pub open spec fn help_text(program: Seq<char>, es: Seq<Entry>) -> Seq<char> {
    "Usage:\t./"@ + program + " "@ + usage_parts(es) + "\n"@ + "Options:\n\n"@ + option_blocks(es)
}

/// Appends the name in upper case.
pub(crate) fn push_upper(out: &mut String, name: &String)
    ensures
        final(out)@ == old(out)@ + upper(name@),
{
    let s = name.as_str();
    let n = s.unicode_len();
    let mut i: usize = 0;
    while i < n
        invariant
            i <= n,
            n == name@.len(),
            s@ == name@,
            out@ == old(out)@ + upper(name@.subrange(0, i as int)),
        decreases n - i,
    {
        crate::tokens::push_char(out, upper_char(s.get_char(i)));
        assert(upper(name@.subrange(0, i + 1)) =~= upper(name@.subrange(0, i as int)).push(
            upper_of(name@[i as int]),
        ));
        i = i + 1;
    }
    assert(name@.subrange(0, n as int) =~= name@);
}

/// Appends what the usage line shows after `--name`.
pub(crate) fn ops(out: &mut String, name: &String, kind: ArgType)
    ensures
        final(out)@ == old(out)@ + placeholder(name@, kind),
{
    match kind {
        ArgType::Option => push_upper(out, name),
        ArgType::List => {
            push_upper(out, name);
            out.append("...");
        },
        ArgType::Dict => out.append("k:v k2:v2..."),
        _ => {
            assert(old(out)@ + placeholder(name@, kind) =~= old(out)@);
        },
    }
}

/// Appends the help text laid out for wrapping.
pub(crate) fn push_wrapped(out: &mut String, help: &String)
    ensures
        final(out)@ == old(out)@ + wrap_from(help@, 0),
{
    let s = help.as_str();
    let n = s.unicode_len();
    let mut col: usize = 0;
    let mut i: usize = 0;
    assert(help@.subrange(0, n as int) =~= help@);
    while i < n
        invariant
            i <= n,
            n == help@.len(),
            s@ == help@,
            col <= i,
            old(out)@ + wrap_from(help@, 0) == out@ + wrap_from(help@.subrange(i as int, n as int), col as int),
        decreases n - i,
    {
        let c = s.get_char(i);
        let ghost rest = help@.subrange(i as int, n as int);
        assert(rest.drop_first() =~= help@.subrange(i + 1, n as int));
        assert(rest[0] == c);
        crate::tokens::push_char(out, c);
        if col > 60 && is_ws(c) {
            out.append("\n\t\t");
            col = 0;
        }
        col = col + 1;
        i = i + 1;
    }
    assert(help@.subrange(n as int, n as int) =~= Seq::<char>::empty());
    assert(out@ + Seq::<char>::empty() =~= out@);
}

} // verus!
