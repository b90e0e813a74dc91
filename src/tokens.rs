//! Classifying tokens as flags, and splitting bundled short flags.
use vstd::prelude::*;

verus! {

/// What `char::is_alphabetic` answers for a character outside ASCII.
pub uninterp spec fn non_ascii_alphabetic(c: char) -> bool;

/// An ASCII letter.
pub open spec fn ascii_letter(c: char) -> bool {
    ('a' <= c <= 'z') || ('A' <= c <= 'Z')
}

/// Whether the character has the Unicode `Alphabetic` property: within
/// ASCII exactly the letters.
pub open spec fn alphabetic(c: char) -> bool {
    if (c as u32) < 128 {
        ascii_letter(c)
    } else {
        non_ascii_alphabetic(c)
    }
}

/// Relies on `char::is_alphabetic`: whether the character has the Unicode
/// `Alphabetic` property, which within ASCII holds of the letters alone.
#[verifier::external_body]
fn is_alpha(c: char) -> (r: bool)
    ensures
        r == (if (c as u32) < 128 {
            ascii_letter(c)
        } else {
            non_ascii_alphabetic(c)
        }),
{
    c.is_alphabetic()
}

/// Relies on `String::push`: the character is appended at the end.
#[verifier::external_body]
pub(crate) fn push_char(s: &mut String, c: char)
    ensures
        final(s)@ == old(s)@.push(c),
{
    s.push(c)
}

/// The characters of each string, in order.
pub open spec fn views(v: Seq<String>) -> Seq<Seq<char>> {
    v.map_values(|s: String| s@)
}

/// A short flag: at least two characters, a `-` and then a letter.
pub open spec fn short_flag_shaped(s: Seq<char>) -> bool {
    s.len() >= 2 && s[0] == '-' && alphabetic(s[1])
}

/// A long flag: its first two characters are both `-`.
pub open spec fn long_flag_shaped(s: Seq<char>) -> bool {
    s.len() >= 2 && s[0] == '-' && s[1] == '-'
}

/// A token that names an option rather than giving a value.
pub open spec fn flag_shaped(s: Seq<char>) -> bool {
    short_flag_shaped(s) || long_flag_shaped(s)
}

/// The short flag `-c`.
pub open spec fn short_form(c: char) -> Seq<char> {
    seq!['-', c]
}

/// What one token becomes: a bundle of short flags `-xyz` becomes `-x`, `-y`,
/// `-z`; every other token stays as it is.
pub open spec fn explode(s: Seq<char>) -> Seq<Seq<char>> {
    if long_flag_shaped(s) || !short_flag_shaped(s) || s.len() == 2 {
        seq![s]
    } else {
        Seq::new((s.len() - 1) as nat, |i: int| short_form(s[i + 1]))
    }
}

/// The whole stream with every token exploded, order kept.
pub open spec fn separated(toks: Seq<Seq<char>>) -> Seq<Seq<char>>
    decreases toks.len(),
{
    if toks.len() == 0 {
        Seq::empty()
    } else {
        separated(toks.drop_last()) + explode(toks.last())
    }
}

/// Whether the token is a short flag: at least two characters, the first `-`,
/// the second alphabetic.
pub fn is_flag(s: &str) -> (r: bool)
    ensures
        r == short_flag_shaped(s@),
{
    if s.unicode_len() < 2 {
        return false;
    }
    s.get_char(0) == '-' && is_alpha(s.get_char(1))
}

/// Whether the token is a long flag: its first two characters are both `-`.
pub fn is_long_flag(s: &str) -> (r: bool)
    ensures
        r == long_flag_shaped(s@),
{
    if s.unicode_len() < 2 {
        return false;
    }
    s.get_char(0) == '-' && s.get_char(1) == '-'
}

/// Whether the token is a short or a long flag.
pub fn is_any_flag(s: &str) -> (r: bool)
    ensures
        r == flag_shaped(s@),
{
    is_flag(s) || is_long_flag(s)
}

/// Appends the tokens that `explode` makes of `x`.
fn push_exploded(out: &mut Vec<String>, x: &String)
    ensures
        views(final(out)@) == views(old(out)@) + explode(x@),
{
    let s = x.as_str();
    let n = s.unicode_len();
    if is_long_flag(s) || !is_flag(s) || n == 2 {
        let ghost before = views(out@);
        out.push(x.clone());
        assert(views(out@) =~= before + explode(x@));
        return;
    }
    let ghost start = out@;
    let mut i: usize = 1;
    while i < n
        invariant
            1 <= i <= n,
            n == x@.len(),
            s@ == x@,
            views(out@) =~= views(start) + Seq::new((i - 1) as nat, |j: int| short_form(x@[j + 1])),
        decreases n - i,
    {
        let mut f = String::new();
        push_char(&mut f, '-');
        push_char(&mut f, s.get_char(i));
        assert(f@ =~= short_form(x@[i as int]));
        let ghost prev = views(out@);
        out.push(f);
        assert(views(out@) =~= prev.push(f@));
        i = i + 1;
        assert(views(out@) =~= views(start) + Seq::new((i - 1) as nat, |j: int| short_form(x@[j + 1])));
    }
}

/// Rewrites a token stream so that each bundle of short flags (`-xyz`) becomes
/// one short flag per character (`-x -y -z`); long flags, two-character short
/// flags and all other tokens pass through unchanged.
pub fn separate_flags(og: Vec<String>) -> (r: Vec<String>)
    ensures
        views(r@) == separated(views(og@)),
{
    let mut separated_toks: Vec<String> = Vec::new();
    let mut i: usize = 0;
    while i < og.len()
        invariant
            i <= og@.len(),
            views(separated_toks@) == separated(views(og@.subrange(0, i as int))),
        decreases og@.len() - i,
    {
        push_exploded(&mut separated_toks, &og[i]);
        assert(views(og@.subrange(0, i + 1)).drop_last() =~= views(og@.subrange(0, i as int)));
        i = i + 1;
    }
    assert(og@.subrange(0, og@.len() as int) =~= og@);
    separated_toks
}

} // verus!
