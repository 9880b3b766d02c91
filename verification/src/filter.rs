//! The filter/sort engine: derives the visible, ordered subset of
//! instances from a free-text filter, and the priced, ordered candidate
//! list of the type picker from a free-text input and the price cache.

use vstd::prelude::*;
use vstd::seq_lib::lemma_multiset_commutative;
use crate::text::{
    lex_le,
    lemma_lex_le_total,
    lemma_lex_le_trans,
    contains_sub,
    str_contains,
    str_lex_le,
};
use crate::prices::{Prices, PriceTable, od_of};
use crate::instance::{InstanceInfo, InstanceTypeInfo, InstanceTypeView, InstanceView};

verus! {

broadcast use vstd::seq_lib::group_to_multiset_ensures;

/// Inserting into a sequence adds one copy to its multiset.
proof fn lemma_insert_to_multiset<A>(s: Seq<A>, k: int, x: A)
    requires
        0 <= k <= s.len(),
    ensures
        s.insert(k, x).to_multiset() =~= s.to_multiset().insert(x),
{
    broadcast use vstd::multiset::group_multiset_axioms;

    assert(s.insert(k, x) =~= s.take(k).push(x) + s.skip(k));
    assert(s =~= s.take(k) + s.skip(k));
    lemma_multiset_commutative(s.take(k).push(x), s.skip(k));
    lemma_multiset_commutative(s.take(k), s.skip(k));
    assert(s.take(k).push(x).to_multiset() =~= s.take(k).to_multiset().insert(x));
}

/// A filter keeps a sequence whose members all satisfy the predicate.
proof fn lemma_filter_all_true<A>(s: Seq<A>, pred: spec_fn(A) -> bool)
    requires
        forall|i: int| 0 <= i < s.len() ==> pred(#[trigger] s[i]),
    ensures
        s.filter(pred) == s,
    decreases s.len(),
{
    reveal(Seq::filter);
    if s.len() > 0 {
        assert(forall|i: int|
            0 <= i < s.drop_last().len() ==> pred(#[trigger] s.drop_last()[i]));
        lemma_filter_all_true(s.drop_last(), pred);
        assert(s.drop_last().push(s.last()) =~= s);
    }
}

// ---------------------------------------------------------------------------
// The instance filter
// ---------------------------------------------------------------------------
/// The free-text filter matches an instance when the query is a
/// case-insensitive substring of its id, name, type or state; an empty
/// query matches everything.
pub open spec fn inst_matches(i: InstanceView, q: Seq<char>) -> bool {
    ||| contains_sub(i.id, q, true)
    ||| (i.name matches Some(n) && contains_sub(n, q, true))
    ||| contains_sub(i.instance_type, q, true)
    ||| contains_sub(i.state, q, true)
}

/// The instances of `s` that match `q`, in their original order.
pub open spec fn filter_matching(s: Seq<InstanceView>, q: Seq<char>) -> Seq<InstanceView> {
    s.filter(|iv: InstanceView| inst_matches(iv, q))
}

/// The sort key of the instance list: the display name, with a missing
/// name sorting as the empty string.
pub open spec fn inst_name_key(i: InstanceView) -> Seq<char> {
    match i.name {
        Some(n) => n,
        None => Seq::empty(),
    }
}

/// Instance order: ascending display name.
pub open spec fn inst_le(a: InstanceView, b: InstanceView) -> bool {
    lex_le(inst_name_key(a), inst_name_key(b))
}

/// The instance list is sorted by ascending display name.
pub open spec fn insts_sorted(s: Seq<InstanceView>) -> bool {
    forall|i: int, j: int| 0 <= i < j < s.len() ==> inst_le(#[trigger] s[i], #[trigger] s[j])
}

/// Decides whether the query matches the instance.
pub fn instance_matches(i: &InstanceInfo, query: &str) -> (r: bool)
    ensures
        r == inst_matches(i@, query@),
{
    if str_contains(i.id.as_str(), query, true) {
        return true;
    }
    match &i.name {
        Some(n) => {
            if str_contains(n.as_str(), query, true) {
                return true;
            }
        },
        None => {},
    }
    if str_contains(i.instance_type.as_str(), query, true) {
        return true;
    }
    str_contains(i.state.as_str(), query, true)
}

fn inst_le_exec(a: &InstanceInfo, b: &InstanceInfo) -> (r: bool)
    ensures
        r == inst_le(a@, b@),
{
    let an: &str = match &a.name {
        Some(n) => n.as_str(),
        None => "",
    };
    let bn: &str = match &b.name {
        Some(n) => n.as_str(),
        None => "",
    };
    proof {
        reveal_strlit("");
        assert(""@ =~= Seq::<char>::empty());
    }
    str_lex_le(an, bn)
}

fn insert_instance_sorted(out: &mut Vec<InstanceInfo>, x: InstanceInfo)
    requires
        insts_sorted(old(out).deep_view()),
    ensures
        insts_sorted(final(out).deep_view()),
        final(out).deep_view().to_multiset() =~= old(out).deep_view().to_multiset().insert(x@),
{
    let ghost odv = out.deep_view();
    let mut k: usize = 0;
    loop
        invariant
            insts_sorted(out.deep_view()),
            out == old(out),
            0 <= k <= out@.len(),
            forall|m: int| 0 <= m < k ==> !inst_le(x@, #[trigger] out.deep_view()[m]),
        ensures
            out == old(out),
            0 <= k <= out@.len(),
            forall|m: int| 0 <= m < k ==> !inst_le(x@, #[trigger] out.deep_view()[m]),
            k < out@.len() ==> inst_le(x@, out.deep_view()[k as int]),
        decreases out@.len() - k,
    {
        if k == out.len() {
            break;
        }
        if inst_le_exec(&x, &out[k]) {
            break;
        }
        k += 1;
    }
    let ghost kk = k as int;
    out.insert(k, x);
    proof {
        assert(out.deep_view() =~= odv.insert(kk, x@));
        let ndv = out.deep_view();
        assert forall|p: int, q: int| 0 <= p < q < ndv.len() implies inst_le(ndv[p], ndv[q]) by {
            if q < kk {
                assert(ndv[p] == odv[p] && ndv[q] == odv[q]);
            } else if p > kk {
                assert(ndv[p] == odv[p - 1] && ndv[q] == odv[q - 1]);
            } else if p == kk {
                // ndv[p] is x; everything after position kk is at least x
                assert(ndv[q] == odv[q - 1]);
                if q - 1 == kk {
                    assert(inst_le(x@, odv[kk]));
                } else {
                    lemma_lex_le_trans(
                        inst_name_key(x@),
                        inst_name_key(odv[kk]),
                        inst_name_key(odv[q - 1]),
                    );
                }
            } else {
                // p < kk: odv[p] precedes x by totality of the order
                assert(!inst_le(x@, odv[p]));
                lemma_lex_le_total(inst_name_key(x@), inst_name_key(odv[p]));
                assert(ndv[p] == odv[p]);
                if q == kk {
                    assert(ndv[q] == x@);
                } else {
                    assert(ndv[q] == odv[q - 1]);
                }
            }
        }
        lemma_insert_to_multiset(odv, kk, x@);
    }
}

/// Sorts the instance list by ascending display name.
pub fn sort_instances_by_name(v: &mut Vec<InstanceInfo>)
    ensures
        insts_sorted(final(v).deep_view()),
        final(v).deep_view().to_multiset() =~= old(v).deep_view().to_multiset(),
{
    let mut out: Vec<InstanceInfo> = Vec::new();
    proof {
        assert(out.deep_view() =~= Seq::<InstanceView>::empty());
    }
    while v.len() > 0
        invariant
            insts_sorted(out.deep_view()),
            out.deep_view().to_multiset().add(v.deep_view().to_multiset()) =~= old(
                v,
            ).deep_view().to_multiset(),
        decreases v@.len(),
    {
        let ghost vdv = v.deep_view();
        let x = v.pop().unwrap();
        proof {
            assert(v.deep_view() =~= vdv.drop_last());
            assert(vdv =~= vdv.drop_last().push(x@));
        }
        insert_instance_sorted(&mut out, x);
    }
    proof {
        assert(v.deep_view() =~= Seq::<InstanceView>::empty());
    }
    *v = out;
}

/// Instance-type metadata order: ascending type name.
pub open spec fn inst_type_le(a: InstanceTypeView, b: InstanceTypeView) -> bool {
    lex_le(a.name, b.name)
}

/// The type-metadata list is sorted by ascending type name.
pub open spec fn inst_types_sorted(s: Seq<InstanceTypeView>) -> bool {
    forall|i: int, j: int| 0 <= i < j < s.len() ==> inst_type_le(#[trigger] s[i], #[trigger] s[j])
}

fn inst_type_le_exec(a: &InstanceTypeInfo, b: &InstanceTypeInfo) -> (r: bool)
    ensures
        r == inst_type_le(a@, b@),
{
    str_lex_le(a.name.as_str(), b.name.as_str())
}

fn insert_instance_type_sorted(out: &mut Vec<InstanceTypeInfo>, x: InstanceTypeInfo)
    requires
        inst_types_sorted(old(out).deep_view()),
    ensures
        inst_types_sorted(final(out).deep_view()),
        final(out).deep_view().to_multiset() =~= old(out).deep_view().to_multiset().insert(x@),
{
    let ghost odv = out.deep_view();
    let mut k: usize = 0;
    loop
        invariant
            inst_types_sorted(out.deep_view()),
            out == old(out),
            0 <= k <= out@.len(),
            forall|m: int| 0 <= m < k ==> !inst_type_le(x@, #[trigger] out.deep_view()[m]),
        ensures
            out == old(out),
            0 <= k <= out@.len(),
            forall|m: int| 0 <= m < k ==> !inst_type_le(x@, #[trigger] out.deep_view()[m]),
            k < out@.len() ==> inst_type_le(x@, out.deep_view()[k as int]),
        decreases out@.len() - k,
    {
        if k == out.len() {
            break;
        }
        if inst_type_le_exec(&x, &out[k]) {
            break;
        }
        k += 1;
    }
    let ghost kk = k as int;
    out.insert(k, x);
    proof {
        assert(out.deep_view() =~= odv.insert(kk, x@));
        let ndv = out.deep_view();
        assert forall|p: int, q: int| 0 <= p < q < ndv.len() implies inst_type_le(
            ndv[p],
            ndv[q],
        ) by {
            if q < kk {
                assert(ndv[p] == odv[p] && ndv[q] == odv[q]);
            } else if p > kk {
                assert(ndv[p] == odv[p - 1] && ndv[q] == odv[q - 1]);
            } else if p == kk {
                assert(ndv[q] == odv[q - 1]);
                if q - 1 == kk {
                    assert(inst_type_le(x@, odv[kk]));
                } else {
                    lemma_lex_le_trans(x@.name, odv[kk].name, odv[q - 1].name);
                }
            } else {
                assert(!inst_type_le(x@, odv[p]));
                lemma_lex_le_total(x@.name, odv[p].name);
                assert(ndv[p] == odv[p]);
                if q == kk {
                    assert(ndv[q] == x@);
                } else {
                    assert(ndv[q] == odv[q - 1]);
                }
            }
        }
        lemma_insert_to_multiset(odv, kk, x@);
    }
}

/// Sorts instance-type metadata by ascending type name, as it is kept
/// from startup on.
pub fn sort_instance_types_by_name(v: &mut Vec<InstanceTypeInfo>)
    ensures
        inst_types_sorted(final(v).deep_view()),
        final(v).deep_view().to_multiset() =~= old(v).deep_view().to_multiset(),
{
    let mut out: Vec<InstanceTypeInfo> = Vec::new();
    proof {
        assert(out.deep_view() =~= Seq::<InstanceTypeView>::empty());
    }
    while v.len() > 0
        invariant
            inst_types_sorted(out.deep_view()),
            out.deep_view().to_multiset().add(v.deep_view().to_multiset()) =~= old(
                v,
            ).deep_view().to_multiset(),
        decreases v@.len(),
    {
        let ghost vdv = v.deep_view();
        let x = v.pop().unwrap();
        proof {
            assert(v.deep_view() =~= vdv.drop_last());
            assert(vdv =~= vdv.drop_last().push(x@));
        }
        insert_instance_type_sorted(&mut out, x);
    }
    proof {
        assert(v.deep_view() =~= Seq::<InstanceTypeView>::empty());
    }
    *v = out;
}

/// The visible instance list: every instance whose id, name, type or state
/// contains the query (case-insensitively), re-sorted by display name.
pub fn apply_instance_filter(all: &Vec<InstanceInfo>, query: &str) -> (res: Vec<InstanceInfo>)
    ensures
        res.deep_view().to_multiset() =~= filter_matching(all.deep_view(), query@).to_multiset(),
        insts_sorted(res.deep_view()),
{
    let ghost pred = |iv: InstanceView| inst_matches(iv, query@);
    let mut kept: Vec<InstanceInfo> = Vec::new();
    let mut i: usize = 0;
    proof {
        reveal(Seq::filter);
        assert(kept.deep_view() =~= all.deep_view().take(0).filter(pred));
    }
    while i < all.len()
        invariant
            0 <= i <= all@.len(),
            kept.deep_view() =~= all.deep_view().take(i as int).filter(pred),
            pred == (|iv: InstanceView| inst_matches(iv, query@)),
        decreases all@.len() - i,
    {
        let ghost adv = all.deep_view();
        let ghost kdv = kept.deep_view();
        if instance_matches(&all[i], query) {
            kept.push(all[i].clone());
        }
        proof {
            reveal(Seq::filter);
            assert(adv.take(i + 1).drop_last() =~= adv.take(i as int));
            assert(adv.take(i + 1).last() == adv[i as int]);
            if inst_matches(adv[i as int], query@) {
                assert(kept.deep_view() =~= kdv.push(adv[i as int]));
                assert(adv.take(i + 1).filter(pred) =~= adv.take(i as int).filter(pred).push(
                    adv[i as int],
                ));
            } else {
                assert(kept.deep_view() =~= kdv);
                assert(adv.take(i + 1).filter(pred) =~= adv.take(i as int).filter(pred));
            }
        }
        i += 1;
    }
    proof {
        assert(all.deep_view().take(all@.len() as int) =~= all.deep_view());
    }
    sort_instances_by_name(&mut kept);
    kept
}

// ---------------------------------------------------------------------------
// The type filter
// ---------------------------------------------------------------------------
/// The type names of `s` that contain `input` as a substring; an empty
/// input keeps them all.
pub open spec fn filter_type_names(s: Seq<Seq<char>>, input: Seq<char>) -> Seq<Seq<char>> {
    s.filter(|t: Seq<char>| contains_sub(t, input, false))
}

/// The price rank of a type: its on-demand price, with types of unknown
/// price ranking after every known price.
pub open spec fn od_rank(m: Map<Seq<char>, Prices>, t: Seq<char>) -> int {
    match od_of(m, t) {
        Some(p) => p as int,
        None => u64::MAX as int + 1,
    }
}

/// Type-candidate order: ascending on-demand price, unknown prices last,
/// ties broken by ascending name.
pub open spec fn type_le(m: Map<Seq<char>, Prices>, a: Seq<char>, b: Seq<char>) -> bool {
    od_rank(m, a) < od_rank(m, b) || (od_rank(m, a) == od_rank(m, b) && lex_le(a, b))
}

/// The candidate list is sorted by [`type_le`] under the price map `m`.
pub open spec fn types_sorted(m: Map<Seq<char>, Prices>, s: Seq<Seq<char>>) -> bool {
    forall|i: int, j: int| 0 <= i < j < s.len() ==> type_le(m, #[trigger] s[i], #[trigger] s[j])
}

/// The candidate list is sorted alphabetically.
pub open spec fn names_sorted(s: Seq<Seq<char>>) -> bool {
    forall|i: int, j: int| 0 <= i < j < s.len() ==> lex_le(#[trigger] s[i], #[trigger] s[j])
}

proof fn lemma_type_le_total(m: Map<Seq<char>, Prices>, a: Seq<char>, b: Seq<char>)
    ensures
        type_le(m, a, b) || type_le(m, b, a),
{
    if od_rank(m, a) == od_rank(m, b) {
        lemma_lex_le_total(a, b);
    }
}

proof fn lemma_type_le_trans(m: Map<Seq<char>, Prices>, a: Seq<char>, b: Seq<char>, c: Seq<char>)
    requires
        type_le(m, a, b),
        type_le(m, b, c),
    ensures
        type_le(m, a, c),
{
    if od_rank(m, a) == od_rank(m, b) && od_rank(m, b) == od_rank(m, c) {
        lemma_lex_le_trans(a, b, c);
    }
}

fn type_le_exec(prices: &PriceTable, a: &String, b: &String) -> (r: bool)
    requires
        prices.wf(),
    ensures
        r == type_le(prices@, a@, b@),
{
    let ra = prices.get_on_demand(a.as_str());
    let rb = prices.get_on_demand(b.as_str());
    match (ra, rb) {
        (Some(x), Some(y)) => {
            if x < y {
                true
            } else if x > y {
                false
            } else {
                str_lex_le(a.as_str(), b.as_str())
            }
        },
        (Some(_), None) => true,
        (None, Some(_)) => false,
        (None, None) => str_lex_le(a.as_str(), b.as_str()),
    }
}

fn insert_type_sorted(prices: &PriceTable, out: &mut Vec<String>, x: String)
    requires
        prices.wf(),
        types_sorted(prices@, old(out).deep_view()),
    ensures
        types_sorted(prices@, final(out).deep_view()),
        final(out).deep_view().to_multiset() =~= old(out).deep_view().to_multiset().insert(x@),
{
    let ghost m = prices@;
    let ghost odv = out.deep_view();
    let mut k: usize = 0;
    loop
        invariant
            prices.wf(),
            types_sorted(m, out.deep_view()),
            m == prices@,
            out == old(out),
            0 <= k <= out@.len(),
            forall|j: int| 0 <= j < k ==> !type_le(m, x@, #[trigger] out.deep_view()[j]),
        ensures
            out == old(out),
            0 <= k <= out@.len(),
            forall|j: int| 0 <= j < k ==> !type_le(m, x@, #[trigger] out.deep_view()[j]),
            k < out@.len() ==> type_le(m, x@, out.deep_view()[k as int]),
        decreases out@.len() - k,
    {
        if k == out.len() {
            break;
        }
        if type_le_exec(prices, &x, &out[k]) {
            break;
        }
        k += 1;
    }
    let ghost kk = k as int;
    out.insert(k, x);
    proof {
        assert(out.deep_view() =~= odv.insert(kk, x@));
        let ndv = out.deep_view();
        assert forall|p: int, q: int| 0 <= p < q < ndv.len() implies type_le(m, ndv[p], ndv[q]) by {
            if q < kk {
                assert(ndv[p] == odv[p] && ndv[q] == odv[q]);
            } else if p > kk {
                assert(ndv[p] == odv[p - 1] && ndv[q] == odv[q - 1]);
            } else if p == kk {
                assert(ndv[q] == odv[q - 1]);
                if q - 1 == kk {
                    assert(type_le(m, x@, odv[kk]));
                } else {
                    lemma_type_le_trans(m, x@, odv[kk], odv[q - 1]);
                }
            } else {
                assert(!type_le(m, x@, odv[p]));
                lemma_type_le_total(m, x@, odv[p]);
                assert(ndv[p] == odv[p]);
                if q == kk {
                    assert(ndv[q] == x@);
                } else {
                    assert(ndv[q] == odv[q - 1]);
                }
            }
        }
        lemma_insert_to_multiset(odv, kk, x@);
    }
}

/// Sorts type candidates by ascending on-demand price, unknown prices
/// last, ties broken alphabetically.
pub fn sort_types_by_price(prices: &PriceTable, v: &mut Vec<String>)
    requires
        prices.wf(),
    ensures
        types_sorted(prices@, final(v).deep_view()),
        final(v).deep_view().to_multiset() =~= old(v).deep_view().to_multiset(),
{
    let mut out: Vec<String> = Vec::new();
    proof {
        assert(out.deep_view() =~= Seq::<Seq<char>>::empty());
    }
    while v.len() > 0
        invariant
            prices.wf(),
            types_sorted(prices@, out.deep_view()),
            out.deep_view().to_multiset().add(v.deep_view().to_multiset()) =~= old(
                v,
            ).deep_view().to_multiset(),
        decreases v@.len(),
    {
        let ghost vdv = v.deep_view();
        let x = v.pop().unwrap();
        proof {
            assert(v.deep_view() =~= vdv.drop_last());
            assert(vdv =~= vdv.drop_last().push(x@));
        }
        insert_type_sorted(prices, &mut out, x);
    }
    proof {
        assert(v.deep_view() =~= Seq::<Seq<char>>::empty());
    }
    *v = out;
}

/// Sorts type candidates alphabetically: the order used while the picker
/// is still in default mode.
pub fn sort_types_alpha(v: &mut Vec<String>)
    ensures
        names_sorted(final(v).deep_view()),
        final(v).deep_view().to_multiset() =~= old(v).deep_view().to_multiset(),
{
    let empty = PriceTable::new();
    sort_types_by_price(&empty, v);
    proof {
        let dv = v.deep_view();
        assert forall|i: int, j: int| 0 <= i < j < dv.len() implies lex_le(dv[i], dv[j]) by {
            assert(type_le(empty@, dv[i], dv[j]));
            assert(od_rank(empty@, dv[i]) == od_rank(empty@, dv[j]));
        }
    }
}

/// The ranked candidate list of the type picker: the names containing
/// `input` (all of them when `input` is empty), sorted by ascending
/// on-demand price with unknown prices last, ties broken alphabetically.
pub fn apply_type_filter(all_types: &Vec<String>, input: &str, prices: &PriceTable) -> (res: Vec<
    String,
>)
    requires
        prices.wf(),
    ensures
        res.deep_view().to_multiset() =~= filter_type_names(all_types.deep_view(), input@)
            .to_multiset(),
        types_sorted(prices@, res.deep_view()),
{
    let ghost pred = |t: Seq<char>| contains_sub(t, input@, false);
    let mut kept: Vec<String> = Vec::new();
    let mut i: usize = 0;
    proof {
        reveal(Seq::filter);
        assert(kept.deep_view() =~= all_types.deep_view().take(0).filter(pred));
    }
    while i < all_types.len()
        invariant
            0 <= i <= all_types@.len(),
            kept.deep_view() =~= all_types.deep_view().take(i as int).filter(pred),
            pred == (|t: Seq<char>| contains_sub(t, input@, false)),
        decreases all_types@.len() - i,
    {
        let ghost adv = all_types.deep_view();
        let ghost kdv = kept.deep_view();
        if str_contains(all_types[i].as_str(), input, false) {
            kept.push(all_types[i].clone());
        }
        proof {
            reveal(Seq::filter);
            assert(adv.take(i + 1).drop_last() =~= adv.take(i as int));
            assert(adv.take(i + 1).last() == adv[i as int]);
            if contains_sub(adv[i as int], input@, false) {
                assert(kept.deep_view() =~= kdv.push(adv[i as int]));
                assert(adv.take(i + 1).filter(pred) =~= adv.take(i as int).filter(pred).push(
                    adv[i as int],
                ));
            } else {
                assert(kept.deep_view() =~= kdv);
                assert(adv.take(i + 1).filter(pred) =~= adv.take(i as int).filter(pred));
            }
        }
        i += 1;
    }
    proof {
        assert(all_types.deep_view().take(all_types@.len() as int) =~= all_types.deep_view());
    }
    sort_types_by_price(prices, &mut kept);
    kept
}

/// The hardcoded candidate list offered when no instance-type metadata
/// could be loaded; these common names are assumed compatible.
pub open spec fn fallback_type_names() -> Seq<Seq<char>> {
    seq![
        "t3.nano"@,
        "t3.micro"@,
        "t3.small"@,
        "t3.medium"@,
        "t3.large"@,
        "t3a.nano"@,
        "t3a.micro"@,
        "t3a.small"@,
        "t3a.medium"@,
        "t2.nano"@,
        "t2.micro"@,
        "t2.small"@,
        "m5.large"@,
        "m5.xlarge"@,
        "c5.large"@,
    ]
}

/// The names of the types that support `arch`, in metadata order.
pub open spec fn compatible_type_names(types: Seq<InstanceTypeView>, arch: Seq<char>) -> Seq<
    Seq<char>,
>
    decreases types.len(),
{
    if types.len() == 0 {
        Seq::empty()
    } else {
        let rest = compatible_type_names(types.drop_last(), arch);
        if types.last().architectures.contains(arch) {
            rest.push(types.last().name)
        } else {
            rest
        }
    }
}

// ---------------------------------------------------------------------------
// Laws of the engine
// ---------------------------------------------------------------------------
/// What `apply_instance_filter` guarantees of its result.
pub open spec fn instance_filter_post(
    all: Seq<InstanceView>,
    q: Seq<char>,
    res: Seq<InstanceView>,
) -> bool {
    &&& res.to_multiset() == filter_matching(all, q).to_multiset()
    &&& insts_sorted(res)
}

/// An instance is visible if and only if it is in the input and the query
/// matches one of its id, name, type or state.
pub proof fn lemma_instance_filter_membership(
    all: Seq<InstanceView>,
    q: Seq<char>,
    res: Seq<InstanceView>,
    inst: InstanceView,
)
    requires
        instance_filter_post(all, q, res),
    ensures
        res.contains(inst) <==> (all.contains(inst) && inst_matches(inst, q)),
{
    broadcast use vstd::seq_lib::group_filter_ensures;

    let pred = |iv: InstanceView| inst_matches(iv, q);
    let f = filter_matching(all, q);
    assert(res.contains(inst) <==> res.to_multiset().count(inst) > 0);
    assert(f.contains(inst) <==> f.to_multiset().count(inst) > 0);
    if f.contains(inst) {
        let i = choose|i: int| 0 <= i < f.len() && f[i] == inst;
        assert(pred(f[i]));
        assert(all.filter(pred).contains(inst));
        lemma_filter_subset(all, pred, inst);
    }
    if all.contains(inst) && pred(inst) {
        let i = choose|i: int| 0 <= i < all.len() && all[i] == inst;
        assert(all.filter(pred).contains(all[i]));
    }
}

/// A filtered element comes from the original sequence.
proof fn lemma_filter_subset<A>(s: Seq<A>, pred: spec_fn(A) -> bool, x: A)
    requires
        s.filter(pred).contains(x),
    ensures
        s.contains(x),
    decreases s.len(),
{
    reveal(Seq::filter);
    if s.len() > 0 {
        if pred(s.last()) && x == s.last() {
            assert(s[s.len() - 1] == x);
        } else {
            if s.filter(pred) == s.drop_last().filter(pred).push(s.last()) && x != s.last() {
                let f = s.drop_last().filter(pred);
                let i = choose|i: int| 0 <= i < f.push(s.last()).len() && f.push(s.last())[i] == x;
                assert(f[i] == x);
            }
            lemma_filter_subset(s.drop_last(), pred, x);
            let i = choose|i: int| 0 <= i < s.drop_last().len() && s.drop_last()[i] == x;
            assert(s[i] == x);
        }
    }
}

/// Filtering is idempotent: filtering a result again with the same query
/// returns the same set of instances.
pub proof fn lemma_instance_filter_idempotent(
    all: Seq<InstanceView>,
    q: Seq<char>,
    r1: Seq<InstanceView>,
    r2: Seq<InstanceView>,
)
    requires
        instance_filter_post(all, q, r1),
        instance_filter_post(r1, q, r2),
    ensures
        r2.to_multiset() == r1.to_multiset(),
{
    broadcast use vstd::seq_lib::group_filter_ensures;

    let pred = |iv: InstanceView| inst_matches(iv, q);
    assert forall|i: int| 0 <= i < r1.len() implies pred(#[trigger] r1[i]) by {
        assert(r1.to_multiset().count(r1[i]) > 0);
        let f = filter_matching(all, q);
        assert(f.to_multiset().count(r1[i]) > 0);
        assert(f.contains(r1[i]));
        let j = choose|j: int| 0 <= j < f.len() && f[j] == r1[i];
        assert(pred(f[j]));
    }
    lemma_filter_all_true(r1, pred);
}

/// Re-filtering with an empty input restores the full candidate set.
pub proof fn lemma_type_filter_empty_input(
    all: Seq<Seq<char>>,
    prices: Map<Seq<char>, Prices>,
    res: Seq<Seq<char>>,
)
    requires
        res.to_multiset() == filter_type_names(all, Seq::<char>::empty()).to_multiset(),
    ensures
        res.to_multiset() == all.to_multiset(),
{
    let pred = |t: Seq<char>| contains_sub(t, Seq::<char>::empty(), false);
    assert forall|i: int| 0 <= i < all.len() implies pred(#[trigger] all[i]) by {
        lemma_matches_at_empty(all[i]);
    }
    lemma_filter_all_true(all, pred);
}

/// The empty needle matches at offset zero.
spec fn matches_at_empty(hay: Seq<char>) -> bool {
    contains_sub(hay, Seq::<char>::empty(), false)
}

proof fn lemma_matches_at_empty(hay: Seq<char>)
    ensures
        matches_at_empty(hay),
{
    assert(crate::text::matches_at(hay, Seq::<char>::empty(), 0, false));
}

} // verus!
