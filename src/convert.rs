//! Conversions from the raw text of an option to typed values.
//!
//! A list option's raw value is its tokens joined with single spaces; a
//! dictionary option's tokens are `key:value` pairs. Both are split back on
//! whitespace here. The conversions are all-or-nothing: one token that does
//! not convert discards the whole result.
use vstd::prelude::*;

use std::collections::HashMap;
use std::hash::Hash;
use vstd::std_specs::hash::obeys_key_model;

verus! {

/// The characters with the Unicode `White_Space` property, which is what
/// `char::is_whitespace` tests.
pub open spec fn whitespace(c: char) -> bool {
    let u = c as u32;
    ||| 0x9 <= u <= 0xd
    ||| u == 0x20
    ||| u == 0x85
    ||| u == 0xa0
    ||| u == 0x1680
    ||| 0x2000 <= u <= 0x200a
    ||| u == 0x2028
    ||| u == 0x2029
    ||| u == 0x202f
    ||| u == 0x205f
    ||| u == 0x3000
}

/// Whether the character is whitespace.
pub fn is_ws(c: char) -> (r: bool)
    ensures
        r == whitespace(c),
{
    let u = c as u32;
    (0x9 <= u && u <= 0xd) || u == 0x20 || u == 0x85 || u == 0xa0 || u == 0x1680 || (0x2000 <= u
        && u <= 0x200a) || u == 0x2028 || u == 0x2029 || u == 0x202f || u == 0x205f || u == 0x3000
}

/// Relies on `str::parse`: the text read as a `T` through its `FromStr`
/// impl, `None` where that impl rejects it. Nothing is known of `T`'s impl,
/// so nothing is stated of the result.
#[verifier::external_body]
pub(crate) fn parse_text<T: std::str::FromStr>(s: &str) -> (r: Option<T>) {
    s.parse().ok()
}

/// The maximal runs of non-whitespace characters, in order.
pub open spec fn words_of(s: Seq<char>) -> Seq<Seq<char>>
    decreases s.len(),
{
    if s.len() == 0 {
        Seq::empty()
    } else {
        let w = words_of(s.drop_last());
        let c = s.last();
        if whitespace(c) {
            w
        } else if s.len() >= 2 && !whitespace(s[s.len() - 2]) {
            w.drop_last().push(w.last().push(c))
        } else {
            w.push(seq![c])
        }
    }
}

/// Splits the text on whitespace, keeping the non-empty pieces in order.
pub fn split_words(s: &str) -> (r: Vec<String>)
    ensures
        r@.map_values(|w: String| w@) == words_of(s@),
{
    let n = s.unicode_len();
    let mut out: Vec<String> = Vec::new();
    let mut cur = String::new();
    let mut in_word = false;
    let mut i: usize = 0;
    while i < n
        invariant
            i <= n,
            n == s@.len(),
            in_word == (i > 0 && !whitespace(s@[i - 1])),
            in_word ==> words_of(s@.subrange(0, i as int)) == out@.map_values(|w: String| w@).push(cur@),
            !in_word ==> words_of(s@.subrange(0, i as int)) == out@.map_values(|w: String| w@),
        decreases n - i,
    {
        let c = s.get_char(i);
        let ghost pre = s@.subrange(0, i as int);
        let ghost cur_s = s@.subrange(0, i + 1);
        assert(cur_s.drop_last() =~= pre);
        assert(cur_s.last() == c);
        if is_ws(c) {
            if in_word {
                let ghost o = out@;
                out.push(cur);
                assert(out@.map_values(|w: String| w@) =~= o.map_values(|w: String| w@).push(cur@));
                cur = String::new();
            }
            in_word = false;
        } else {
            if in_word {
                assert(cur_s[cur_s.len() - 2] == s@[i - 1]);
                let ghost ws = words_of(pre);
                assert(ws.drop_last() =~= out@.map_values(|w: String| w@));
                crate::tokens::push_char(&mut cur, c);
            } else {
                cur = String::new();
                crate::tokens::push_char(&mut cur, c);
                assert(cur@ =~= seq![c]);
                if i > 0 {
                    assert(cur_s[cur_s.len() - 2] == s@[i - 1]);
                }
            }
            in_word = true;
        }
        i = i + 1;
    }
    assert(s@.subrange(0, n as int) =~= s@);
    if in_word {
        let ghost o = out@;
        out.push(cur);
        assert(out@.map_values(|w: String| w@) =~= o.map_values(|w: String| w@).push(cur@));
    }
    out
}

/// Every item is present.
pub open spec fn all_some<T>(items: Seq<Option<T>>) -> bool {
    forall|i: int| 0 <= i < items.len() ==> #[trigger] items[i] is Some
}

/// Gathers converted items: the values in order where there is at least one
/// item and every item is present, `None` otherwise. A single absent item
/// discards the whole result.
pub fn collect_all<T>(items: Vec<Option<T>>) -> (r: Option<Vec<T>>)
    ensures
        gathered(items@, r),
{
    let ghost orig = items@;
    if items.len() == 0 {
        return None;
    }
    let mut rest = items;
    // Take the items out from the back, then reverse the order.
    let mut rev: Vec<T> = Vec::new();
    while rest.len() > 0
        invariant
            orig == items@,
            rest@ == orig.subrange(0, rest@.len() as int),
            rest@.len() <= orig.len(),
            forall|j: int| rest@.len() <= j < orig.len() ==> #[trigger] orig[j] is Some,
            rev@.len() == orig.len() - rest@.len(),
            forall|j: int| 0 <= j < rev@.len() ==> rev@[j] == orig[orig.len() - 1 - j]->0,
        decreases rest@.len(),
    {
        match rest.pop() {
            Some(Some(v)) => {
                rev.push(v);
            },
            _ => {
                assert(!(orig[rest@.len() as int] is Some));
                assert(!all_some(orig));
                return None;
            },
        }
    }
    let mut out: Vec<T> = Vec::new();
    while rev.len() > 0
        invariant
            rev@.len() + out@.len() == orig.len(),
            forall|j: int| 0 <= j < rev@.len() ==> rev@[j] == orig[orig.len() - 1 - j]->0,
            forall|j: int| 0 <= j < out@.len() ==> out@[j] == orig[j]->0,
        decreases rev@.len(),
    {
        let v = rev.pop().unwrap();
        out.push(v);
    }
    assert(out@ =~= orig.map_values(|o: Option<T>| o->0));
    Some(out)
}

/// The index of the first `:` at or after `i`.
pub open spec fn first_colon(s: Seq<char>, i: int) -> Option<int>
    decreases s.len() - i,
{
    if i < 0 || i >= s.len() {
        None
    } else if s[i] == ':' {
        Some(i)
    } else {
        first_colon(s, i + 1)
    }
}

/// A chunk split at its first `:` into key and value; `None` where it has no
/// `:`.
pub open spec fn pair_of(s: Seq<char>) -> Option<(Seq<char>, Seq<char>)> {
    match first_colon(s, 0) {
        Some(i) => Some((s.subrange(0, i), s.subrange(i + 1, s.len() as int))),
        None => None,
    }
}

/// Splits one chunk at its first `:`.
pub fn split_pair(w: &str) -> (r: Option<(String, String)>)
    ensures
        match pair_of(w@) {
            Some(p) => match r {
                Some(q) => q.0@ == p.0 && q.1@ == p.1,
                None => false,
            },
            None => r is None,
        },
{
    let n = w.unicode_len();
    let mut i: usize = 0;
    while i < n
        invariant
            i <= n,
            n == w@.len(),
            first_colon(w@, 0) == first_colon(w@, i as int),
        decreases n - i,
    {
        if w.get_char(i) == ':' {
            let k = String::from_str(w.substring_char(0, i));
            let v = String::from_str(w.substring_char(i + 1, n));
            return Some((k, v));
        }
        i = i + 1;
    }
    None
}

/// The key and value strings of each whitespace-separated `key:value` chunk,
/// in order; `None` where some chunk has no `:`.
pub fn split_pairs(s: &str) -> (r: Option<Vec<(String, String)>>)
    ensures
        r is Some <==> (forall|i: int|
            0 <= i < words_of(s@).len() ==> #[trigger] pair_of(words_of(s@)[i]) is Some),
        r is Some ==> r->0@.map_values(|p: (String, String)| (p.0@, p.1@)) == words_of(s@).map_values(
            |w: Seq<char>| pair_of(w)->0,
        ),
{
    let words = split_words(s);
    let ghost ws = words_of(s@);
    let mut out: Vec<(String, String)> = Vec::new();
    let mut i: usize = 0;
    while i < words.len()
        invariant
            i <= words@.len(),
            ws == words_of(s@),
            ws == words@.map_values(|w: String| w@),
            forall|j: int| 0 <= j < i ==> #[trigger] pair_of(ws[j]) is Some,
            out@.map_values(|p: (String, String)| (p.0@, p.1@)) == ws.subrange(0, i as int).map_values(
                |w: Seq<char>| pair_of(w)->0,
            ),
        decreases words@.len() - i,
    {
        assert(ws[i as int] == words@[i as int]@);
        match split_pair(words[i].as_str()) {
            Some(p) => {
                let ghost o = out@;
                assert(pair_of(ws[i as int]) is Some);
                assert((p.0@, p.1@) == pair_of(ws[i as int])->0);
                assert(ws.subrange(0, i + 1) =~= ws.subrange(0, i as int).push(ws[i as int]));
                let ghost pv = (p.0@, p.1@);
                out.push(p);
                assert(out@.map_values(|p: (String, String)| (p.0@, p.1@)) =~= o.map_values(
                    |p: (String, String)| (p.0@, p.1@),
                ).push(pv));
                assert(ws.subrange(0, i + 1).map_values(|w: Seq<char>| pair_of(w)->0) =~= ws.subrange(
                    0,
                    i as int,
                ).map_values(|w: Seq<char>| pair_of(w)->0).push(pv));
                assert(out@.map_values(|p: (String, String)| (p.0@, p.1@)) =~= ws.subrange(
                    0,
                    i + 1,
                ).map_values(|w: Seq<char>| pair_of(w)->0));
            },
            None => {
                assert(!(pair_of(ws[i as int]) is Some));
                return None;
            },
        }
        i = i + 1;
    }
    assert(ws.subrange(0, ws.len() as int) =~= ws);
    Some(out)
}

/// `r` is what `collect_all` gives for these items.
pub open spec fn gathered<T>(items: Seq<Option<T>>, r: Option<Vec<T>>) -> bool {
    &&& r is Some <==> (items.len() > 0 && all_some(items))
    &&& r is Some ==> r->0@ == items.map_values(|o: Option<T>| o->0)
}

/// `r` is what `collect_pairs` gives for these items.
pub open spec fn gathered_pairs<K, V>(items: Seq<Option<(K, V)>>, r: Option<HashMap<K, V>>) -> bool {
    &&& r is Some <==> (items.len() > 0 && all_some(items))
    &&& r is Some && obeys_key_model::<K>() ==> r->0@ == pairs_map(
        items.map_values(|o: Option<(K, V)>| o->0),
    )
}

/// Converts a list option's raw value: the whitespace-separated tokens, each
/// read as a `T`. `None` where there is no token or any token does not
/// convert.
pub fn vec_parser<T: std::str::FromStr>(s: &str) -> (r: Option<Vec<T>>)
    ensures
        words_of(s@).len() == 0 ==> r is None,
        exists|items: Seq<Option<T>>|
            items.len() == words_of(s@).len() && #[trigger] gathered(items, r),
{
    let words = split_words(s);
    let mut parsed: Vec<Option<T>> = Vec::new();
    let mut i: usize = 0;
    while i < words.len()
        invariant
            i <= words@.len(),
            parsed@.len() == i,
        decreases words@.len() - i,
    {
        parsed.push(parse_text(words[i].as_str()));
        i = i + 1;
    }
    let ghost items = parsed@;
    let r = collect_all(parsed);
    assert(gathered(items, r));
    r
}

/// The map made by inserting the pairs in order: a later pair overwrites an
/// earlier one with the same key.
pub open spec fn pairs_map<K, V>(ps: Seq<(K, V)>) -> Map<K, V>
    decreases ps.len(),
{
    if ps.len() == 0 {
        Map::empty()
    } else {
        pairs_map(ps.drop_last()).insert(ps.last().0, ps.last().1)
    }
}

/// Gathers converted key-value pairs into a map: the pairs inserted in order
/// where there is at least one pair and every pair is present, `None`
/// otherwise. A single absent pair discards the whole result. What the map
/// holds is stated for key types whose `Hash` and `Eq` agree with equality.
pub fn collect_pairs<K: Hash + Eq, V>(items: Vec<Option<(K, V)>>) -> (r: Option<HashMap<K, V>>)
    ensures
        gathered_pairs(items@, r),
{
    broadcast use vstd::std_specs::hash::axiom_random_state_builds_valid_hashers;

    let ghost ps = items@.map_values(|o: Option<(K, V)>| o->0);
    let pairs = match collect_all(items) {
        Some(p) => p,
        None => return None,
    };
    let n = pairs.len();
    let mut rest = pairs;
    // Take the pairs out from the back, then insert them from the front.
    let mut rev: Vec<(K, V)> = Vec::new();
    while rest.len() > 0
        invariant
            rest@ == ps.subrange(0, rest@.len() as int),
            n == ps.len(),
            rev@.len() == n - rest@.len(),
            forall|j: int| 0 <= j < rev@.len() ==> rev@[j] == ps[n - 1 - j],
        decreases rest@.len(),
    {
        let p = rest.pop().unwrap();
        rev.push(p);
    }
    let mut h: HashMap<K, V> = HashMap::new();
    let mut done: usize = 0;
    while rev.len() > 0
        invariant
            n == ps.len(),
            rev@.len() + done == n,
            forall|j: int| 0 <= j < rev@.len() ==> rev@[j] == ps[n - 1 - j],
            obeys_key_model::<K>() ==> h@ == pairs_map(ps.subrange(0, done as int)),
        decreases rev@.len(),
    {
        let (k, v) = rev.pop().unwrap();
        assert(ps.subrange(0, done + 1).drop_last() =~= ps.subrange(0, done as int));
        h.insert(k, v);
        done = done + 1;
    }
    assert(ps.subrange(0, n as int) =~= ps);
    Some(h)
}

/// Converts a dictionary option's raw value: each whitespace-separated
/// `key:value` chunk, split at its first `:`, with the key read as a `K` and
/// the value as a `V`, gathered by `collect_pairs`. `None` where there is no
/// chunk, a chunk has no `:`, or any key or value does not convert.
pub fn hashmap_parser<K: std::str::FromStr + Hash + Eq, V: std::str::FromStr>(s: &str) -> (r: Option<
    HashMap<K, V>,
>)
    ensures
        words_of(s@).len() == 0 ==> r is None,
        split_pairs_fail(s@) ==> r is None,
        exists|items: Seq<Option<(K, V)>>|
            items.len() == words_of(s@).len() && #[trigger] gathered_pairs(items, r),
{
    let pairs = match split_pairs(s) {
        Some(p) => p,
        None => {
            proof {
                let none = Seq::new(words_of(s@).len(), |i: int| None::<(K, V)>);
                let j = choose|j: int| 0 <= j < words_of(s@).len() && !(pair_of(words_of(s@)[j]) is Some);
                assert(!(none[j] is Some));
                assert(gathered_pairs(none, None));
            }
            return None;
        },
    };
    assert(pairs@.map_values(|p: (String, String)| (p.0@, p.1@)).len() == pairs@.len());
    let mut parsed: Vec<Option<(K, V)>> = Vec::new();
    let mut i: usize = 0;
    while i < pairs.len()
        invariant
            i <= pairs@.len(),
            parsed@.len() == i,
        decreases pairs@.len() - i,
    {
        let k = parse_text::<K>(pairs[i].0.as_str());
        let v = parse_text::<V>(pairs[i].1.as_str());
        let item = match (k, v) {
            (Some(k), Some(v)) => Some((k, v)),
            _ => None,
        };
        parsed.push(item);
        i = i + 1;
    }
    let ghost items = parsed@;
    let r = collect_pairs(parsed);
    assert(gathered_pairs(items, r));
    r
}

/// Some chunk of the text has no `:`.
pub open spec fn split_pairs_fail(s: Seq<char>) -> bool {
    exists|i: int| 0 <= i < words_of(s).len() && #[trigger] pair_of(words_of(s)[i]) is None
}

} // verus!
