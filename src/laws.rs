//! Properties of parsing that hold for every declaration set and token
//! stream, proved over the model that `ArgParser::parse` is verified against.
use vstd::prelude::*;

use crate::argparser::{outcome_view, ArgParser, ArgType, ParseResult};
use crate::model::{
    claim, first_bad_from, flag_value, has_bad, join_words, last_match, match_count, names_option,
    parse_model, run_end, taken_value, bad_at, Entry, Failure,
};
use crate::tokens::{views, explode, flag_shaped, long_flag_shaped, separated, short_flag_shaped, short_form};

verus! {

proof fn lemma_no_match(e: Entry, t: Seq<Seq<char>>, j: int)
    requires
        0 <= j <= t.len(),
        forall|m: int| 0 <= m < j ==> !names_option(e, #[trigger] t[m]),
    ensures
        last_match(e, t, j) is None,
        match_count(e, t, j) == 0,
    decreases j,
{
    if j > 0 {
        lemma_no_match(e, t, j - 1);
    }
}

/// An option none of whose flags appears in the normalized stream keeps its
/// default (or stays without a value) in every successful parse, and its
/// match count is zero. A positional option without a default is left out:
/// it takes its value from its position instead.
pub proof fn lemma_omitted_flag_keeps_default(es: Seq<Entry>, args: Seq<Seq<char>>, k: int)
    requires
        0 <= k < es.len(),
        forall|m: int|
            0 <= m < separated(args).len() ==> !names_option(es[k], #[trigger] separated(args)[m]),
        !(es[k].1.kind is Positional && es[k].1.val is None),
    ensures
        parse_model(es, separated(args)) is Ok ==> {
            let r = parse_model(es, separated(args))->Ok_0;
            r[k].1.val == es[k].1.val && r[k].1.count == 0
        },
{
    let t = separated(args);
    lemma_no_match(es[k], t, t.len() as int);
}

proof fn lemma_separated_append(a: Seq<Seq<char>>, b: Seq<Seq<char>>)
    ensures
        separated(a + b) == separated(a) + separated(b),
    decreases b.len(),
{
    if b.len() == 0 {
        assert(a + b =~= a);
        assert(separated(a) + separated(b) =~= separated(a));
    } else {
        lemma_separated_append(a, b.drop_last());
        assert((a + b).drop_last() =~= a + b.drop_last());
        assert((a + b).last() == b.last());
        assert(separated(a) + separated(b) =~= separated(a) + separated(b.drop_last()) + explode(
            b.last(),
        ));
    }
}

proof fn lemma_separated_singles(s: Seq<Seq<char>>)
    requires
        forall|i: int| 0 <= i < s.len() ==> #[trigger] explode(s[i]) == seq![s[i]],
    ensures
        separated(s) == s,
    decreases s.len(),
{
    if s.len() > 0 {
        lemma_separated_singles(s.drop_last());
        assert(explode(s.last()) == seq![s.last()]);
        assert(s.drop_last().push(s.last()) =~= s);
    }
}

/// A bundle of short flags `-abc` and the separate flags `-a -b -c` normalize
/// to the same stream wherever they stand, so every declaration set parses
/// the two streams alike.
pub proof fn lemma_bundle_equals_separate_flags(
    es: Seq<Entry>,
    pre: Seq<Seq<char>>,
    bundle: Seq<char>,
    post: Seq<Seq<char>>,
)
    requires
        short_flag_shaped(bundle),
        !long_flag_shaped(bundle),
        bundle.len() > 2,
    ensures
        explode(bundle) == Seq::new((bundle.len() - 1) as nat, |i: int| short_form(bundle[i + 1])),
        separated(pre + seq![bundle] + post) == separated(pre + explode(bundle) + post),
        parse_model(es, separated(pre + seq![bundle] + post)) == parse_model(
            es,
            separated(pre + explode(bundle) + post),
        ),
{
    let x = explode(bundle);
    assert forall|i: int| 0 <= i < x.len() implies #[trigger] explode(x[i]) == seq![x[i]] by {
        assert(x[i].len() == 2);
    }
    lemma_separated_singles(x);
    lemma_separated_append(pre, seq![bundle]);
    lemma_separated_append(pre + seq![bundle], post);
    lemma_separated_append(pre, x);
    lemma_separated_append(pre + x, post);
    assert(separated(seq![bundle]) =~= x) by {
        let one = seq![bundle];
        assert(one.drop_last() =~= Seq::<Seq<char>>::empty());
        assert(one.last() == bundle);
        assert(separated(one) == separated(one.drop_last()) + explode(one.last()));
        assert(Seq::<Seq<char>>::empty() + x =~= x);
    }
}

proof fn lemma_run_end(t: Seq<Seq<char>>, s: int)
    requires
        0 <= s <= t.len(),
    ensures
        s <= run_end(t, s) <= t.len(),
        forall|i: int| s <= i < run_end(t, s) ==> !flag_shaped(#[trigger] t[i]),
        run_end(t, s) < t.len() ==> flag_shaped(t[run_end(t, s)]),
    decreases t.len() - s,
{
    if s < t.len() && !flag_shaped(t[s]) {
        lemma_run_end(t, s + 1);
    }
}

/// A flag of a list or dictionary option takes exactly the tokens after it up
/// to the next flag-shaped token or the end of the stream, joined with single
/// spaces; that flag and every token from there on are left to the others.
pub proof fn lemma_list_stops_at_next_flag(e: Entry, t: Seq<Seq<char>>, m: int)
    requires
        e.1.kind == ArgType::List || e.1.kind == ArgType::Dict,
        0 <= m < t.len(),
        names_option(e, t[m]),
    ensures
        ({
            let b = run_end(t, m + 1);
            &&& m + 1 <= b <= t.len()
            &&& forall|i: int| m + 1 <= i < b ==> !flag_shaped(#[trigger] t[i]) && claim(e, t, m, i)
            &&& b < t.len() ==> flag_shaped(t[b])
            &&& forall|x: int| b <= x < t.len() ==> !#[trigger] claim(e, t, m, x)
            &&& taken_value(e.1.kind, t, m, e.1.val) == Some(join_words(t.subrange(m + 1, b)))
        }),
{
    lemma_run_end(t, m + 1);
}

proof fn lemma_first_bad_is(es: Seq<Entry>, t: Seq<Seq<char>>, i: int, k: int)
    requires
        0 <= i <= k < es.len(),
        has_bad(es[k], t),
        forall|k2: int| i <= k2 < k ==> !has_bad(#[trigger] es[k2], t),
    ensures
        first_bad_from(es, t, i) == Some(k),
    decreases k - i,
{
    if i < k {
        lemma_first_bad_is(es, t, i + 1, k);
    }
}

/// A value option's flag that ends the stream or is followed by a flag makes
/// the parse fail with a missing value naming that option, unless an option
/// declared earlier already failed the same way.
pub proof fn lemma_value_flag_without_value(es: Seq<Entry>, t: Seq<Seq<char>>, k: int, m: int)
    requires
        0 <= k < es.len(),
        es[k].1.kind == ArgType::Option,
        0 <= m < t.len(),
        names_option(es[k], t[m]),
        m + 1 == t.len() || flag_shaped(t[m + 1]),
        forall|k2: int| 0 <= k2 < k ==> !has_bad(#[trigger] es[k2], t),
    ensures
        parse_model(es, t) == Err::<Seq<Entry>, Failure>(Failure::MissingValue(es[k].0)),
{
    assert(bad_at(es[k], t, m));
    lemma_first_bad_is(es, t, 0, k);
}

/// Parsing is repeatable: two outcomes that `ArgParser::parse` returned for
/// the same declarations and the same token stream are the same outcome,
/// value for value and count for count, and on failure the same error.
pub proof fn lemma_parse_repeatable(
    p: ArgParser,
    args: Seq<String>,
    r1: ParseResult,
    r2: ParseResult,
)
    requires
        outcome_view(r1) == parse_model(p.entries(), separated(views(args))),
        outcome_view(r2) == parse_model(p.entries(), separated(views(args))),
    ensures
        r1 is Ok <==> r2 is Ok,
        r1 is Ok ==> r1->Ok_0.entries() == r2->Ok_0.entries(),
        r1 is Err ==> r1->Err_0.view() == r2->Err_0.view(),
{
}

} // verus!
