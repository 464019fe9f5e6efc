//! Deep merging of two structured values: the overlay wins, except where
//! it is `Null`.

use crate::value::{
    entries_view, find_key, key_index, keys_unique, lemma_key_index, lemma_key_index_is,
    lemma_key_index_none, lookup, well_formed, StructuredValue, ValueModel,
};
use vstd::prelude::*;

verus! {

/// The merge of `overlay` over `base`.
///
/// A `Null` overlay has no opinion and leaves the base as it is. Two
/// objects merge key by key. In every other case the overlay replaces the
/// base whole: lists are not merged element by element.
pub open spec fn merge_model(base: ValueModel, overlay: ValueModel) -> ValueModel
    decreases overlay, 1int,
{
    match overlay {
        ValueModel::Null => base,
        ValueModel::Object(over) => match base {
            ValueModel::Object(under) => ValueModel::Object(
                merged_kept(under, over) + merged_added(under, over),
            ),
            _ => overlay,
        },
        _ => overlay,
    }
}

/// The entries of the base in their order, each merged with what the
/// overlay holds under the same key.
pub open spec fn merged_kept(
    under: Seq<(Seq<char>, ValueModel)>,
    over: Seq<(Seq<char>, ValueModel)>,
) -> Seq<(Seq<char>, ValueModel)>
    decreases over, 0int,
{
    Seq::new(
        under.len(),
        |i: int|
            {
                let j = key_index(over, under[i].0);
                if 0 <= j < over.len() {
                    (under[i].0, merge_model(under[i].1, over[j].1))
                } else {
                    under[i]
                }
            },
    )
}

/// Whether an entry of the overlay is new to the base: its value is not
/// `Null` and the base has no entry under its key.
pub open spec fn is_added(under: Seq<(Seq<char>, ValueModel)>) -> spec_fn(
    (Seq<char>, ValueModel),
) -> bool {
    |e: (Seq<char>, ValueModel)| !(e.1 is Null) && key_index(under, e.0) < 0
}

/// The entries that only the overlay has, in the overlay's order.
pub open spec fn merged_added(
    under: Seq<(Seq<char>, ValueModel)>,
    over: Seq<(Seq<char>, ValueModel)>,
) -> Seq<(Seq<char>, ValueModel)> {
    over.filter(is_added(under))
}

/// `Null`, or an object all of whose leaves are `Null`.
pub open spec fn all_null(m: ValueModel) -> bool
    decreases m,
{
    match m {
        ValueModel::Null => true,
        ValueModel::Object(entries) => forall|i: int|
            0 <= i < entries.len() ==> all_null((#[trigger] entries[i]).1),
        _ => false,
    }
}

/// A boolean, a number or a text.
pub open spec fn is_scalar(m: ValueModel) -> bool {
    m is Bool || m is Number || m is Text
}

/// Whether `base` has an object wherever `overlay` has one, and every key
/// under which the overlay holds more than `Null`.
pub open spec fn hosts(base: ValueModel, overlay: ValueModel) -> bool
    decreases overlay,
{
    match overlay {
        ValueModel::Null => true,
        ValueModel::Object(over) => match base {
            ValueModel::Object(under) => forall|j: int|
                0 <= j < over.len() && !((#[trigger] over[j]).1 is Null) ==> {
                    let i = key_index(under, over[j].0);
                    0 <= i < under.len() && hosts(under[i].1, over[j].1)
                },
            _ => false,
        },
        _ => false,
    }
}

/// Every entry that `merged_added` keeps is an entry of the overlay that is
/// new to the base, and the entries keep their order.
proof fn lemma_added_entries(
    under: Seq<(Seq<char>, ValueModel)>,
    over: Seq<(Seq<char>, ValueModel)>,
)
    ensures
        merged_added(under, over).len() <= over.len(),
        forall|i: int|
            0 <= i < merged_added(under, over).len() ==> exists|j: int|
                i <= j < over.len() && over[j] == #[trigger] merged_added(under, over)[i]
                    && is_added(under)(over[j]),
        keys_unique(over) ==> keys_unique(merged_added(under, over)),
    decreases over.len(),
{
    reveal(Seq::filter);
    let added = merged_added(under, over);
    if over.len() > 0 {
        let front = over.drop_last();
        let rest = merged_added(under, front);
        lemma_added_entries(under, front);
        assert forall|i: int| 0 <= i < added.len() implies exists|j: int|
            i <= j < over.len() && over[j] == #[trigger] added[i] && is_added(under)(over[j]) by {
            if i < rest.len() {
                let j = choose|j: int|
                    i <= j < front.len() && front[j] == rest[i] && is_added(under)(front[j]);
                assert(over[j] == added[i]);
            } else {
                assert(over[over.len() - 1] == added[i]);
            }
        }
        if keys_unique(over) {
            assert(keys_unique(front)) by {
                assert forall|a: int, b: int| 0 <= a < b < front.len() implies (
                #[trigger] front[a]).0 != (#[trigger] front[b]).0 by {
                    assert(over[a] == front[a] && over[b] == front[b]);
                }
            }
            assert forall|a: int, b: int| 0 <= a < b < added.len() implies (#[trigger] added[a]).0
                != (#[trigger] added[b]).0 by {
                if b < rest.len() {
                    assert(rest[a] == added[a] && rest[b] == added[b]);
                } else {
                    let j = choose|j: int|
                        a <= j < front.len() && front[j] == rest[a] && is_added(under)(front[j]);
                    assert(over[j] == added[a]);
                    assert(over[over.len() - 1] == added[b]);
                }
            }
        }
    } else {
        assert(added.len() == 0);
    }
}

/// Merging two values whose objects have unique keys gives such a value.
pub proof fn lemma_merge_well_formed(base: ValueModel, overlay: ValueModel)
    requires
        well_formed(base),
        well_formed(overlay),
    ensures
        well_formed(merge_model(base, overlay)),
    decreases overlay,
{
    if let ValueModel::Object(over) = overlay {
        if let ValueModel::Object(under) = base {
            let kept = merged_kept(under, over);
            let added = merged_added(under, over);
            let all = kept + added;
            lemma_added_entries(under, over);
            assert forall|i: int| 0 <= i < all.len() implies well_formed((#[trigger] all[i]).1) by {
                if i < kept.len() {
                    let j = key_index(over, under[i].0);
                    assert(well_formed(under[i].1));
                    if 0 <= j < over.len() {
                        assert(well_formed(over[j].1));
                        lemma_merge_well_formed(under[i].1, over[j].1);
                    }
                } else {
                    let k = i - kept.len();
                    let j = choose|j: int|
                        k <= j < over.len() && over[j] == added[k] && is_added(under)(over[j]);
                    assert(well_formed(over[j].1));
                }
            }
            assert forall|a: int, b: int| 0 <= a < b < all.len() implies (#[trigger] all[a]).0 != (
            #[trigger] all[b]).0 by {
                if b < kept.len() {
                    assert(kept[a].0 == under[a].0 && kept[b].0 == under[b].0);
                } else if a < kept.len() {
                    let k = b - kept.len();
                    let j = choose|j: int|
                        k <= j < over.len() && over[j] == added[k] && is_added(under)(over[j]);
                    lemma_key_index(under, over[j].0);
                    assert(kept[a].0 == under[a].0);
                } else {
                    assert(added[a - kept.len()] == all[a]);
                    assert(added[b - kept.len()] == all[b]);
                }
            }
        }
    }
}

/// An overlay that is `Null`, or an object with nothing but `Null` at its
/// leaves, changes nothing in a base that has an object wherever the
/// overlay has one and every key under which the overlay holds an object.
pub proof fn lemma_merge_all_null(base: ValueModel, overlay: ValueModel)
    requires
        well_formed(base),
        all_null(overlay),
        hosts(base, overlay),
    ensures
        merge_model(base, overlay) == base,
    decreases overlay,
{
    if let ValueModel::Object(over) = overlay {
        if let ValueModel::Object(under) = base {
            let kept = merged_kept(under, over);
            let added = merged_added(under, over);
            assert(kept =~= under) by {
                assert forall|i: int| 0 <= i < under.len() implies kept[i] == under[i] by {
                    let j = key_index(over, under[i].0);
                    lemma_key_index(over, under[i].0);
                    if 0 <= j < over.len() {
                        assert(all_null(over[j].1));
                        if !(over[j].1 is Null) {
                            let i2 = key_index(under, over[j].0);
                            lemma_key_index(under, over[j].0);
                            assert(under[i2].0 == under[i].0);
                            assert(i2 == i);
                            lemma_merge_all_null(under[i].1, over[j].1);
                        }
                    }
                }
            }
            assert(added.len() == 0) by {
                lemma_added_entries(under, over);
                if added.len() > 0 {
                    let j = choose|j: int|
                        0 <= j < over.len() && over[j] == added[0] && is_added(under)(over[j]);
                    assert(!(over[j].1 is Null));
                    assert(key_index(under, over[j].0) >= 0);
                }
            }
        }
    }
}

/// What a merged object holds under a key, in terms of what the two
/// objects hold under it: where the overlay holds more than `Null`, that
/// value merged over the base's, or as it is where the base has none; and
/// the base's value otherwise.
pub open spec fn merged_lookup(base: ValueModel, overlay: ValueModel, key: Seq<char>) -> Option<
    ValueModel,
> {
    match lookup(overlay, key) {
        Some(over) => if over is Null {
            lookup(base, key)
        } else {
            match lookup(base, key) {
                Some(under) => Some(merge_model(under, over)),
                None => Some(over),
            }
        },
        None => lookup(base, key),
    }
}

/// Two objects merge key by key: under every key the merged object holds
/// what [`merged_lookup`] says. The overlay's keys have to be unique.
pub proof fn lemma_merge_lookup(
    under: Seq<(Seq<char>, ValueModel)>,
    over: Seq<(Seq<char>, ValueModel)>,
    key: Seq<char>,
)
    requires
        keys_unique(over),
    ensures
        lookup(merge_model(ValueModel::Object(under), ValueModel::Object(over)), key)
            == merged_lookup(ValueModel::Object(under), ValueModel::Object(over), key),
{
    let kept = merged_kept(under, over);
    let added = merged_added(under, over);
    let all = kept + added;
    let i = key_index(under, key);
    let j = key_index(over, key);
    lemma_key_index(under, key);
    lemma_key_index(over, key);
    lemma_added_entries(under, over);
    if i >= 0 {
        assert(all[i] == kept[i]);
        assert forall|k: int| 0 <= k < i implies (#[trigger] all[k]).0 != key by {
            assert(all[k] == kept[k]);
            assert(kept[k].0 == under[k].0);
        }
        lemma_key_index_is(all, key, i);
    } else {
        assert forall|p: int| 0 <= p < added.len() && (#[trigger] added[p]).0 == key implies j >= 0
            && added[p] == over[j] by {
            let q = choose|q: int|
                p <= q < over.len() && over[q] == added[p] && is_added(under)(over[q]);
            if j < 0 || q != j {
                assert(over[q].0 == key);
            }
        }
        if j >= 0 && !(over[j].1 is Null) {
            over.lemma_filter_contains(is_added(under), j);
            let p = choose|p: int| 0 <= p < added.len() && added[p] == over[j];
            assert forall|k: int| 0 <= k < kept.len() + p implies (#[trigger] all[k]).0 != key by {
                if k < kept.len() {
                    assert(all[k] == kept[k]);
                    assert(kept[k].0 == under[k].0);
                } else {
                    let a = k - kept.len();
                    assert(all[k] == added[a]);
                    if added[a].0 == key {
                        assert(added[a] == added[p]);
                        assert(keys_unique(added));
                    }
                }
            }
            assert(all[kept.len() + p] == added[p]);
            lemma_key_index_is(all, key, kept.len() + p);
        } else {
            assert forall|k: int| 0 <= k < all.len() implies (#[trigger] all[k]).0 != key by {
                if k < kept.len() {
                    assert(all[k] == kept[k]);
                    assert(kept[k].0 == under[k].0);
                } else {
                    assert(all[k] == added[k - kept.len()]);
                    if added[k - kept.len()].0 == key {
                        let q = choose|q: int|
                            k - kept.len() <= q < over.len() && over[q] == added[k - kept.len()]
                                && is_added(under)(over[q]);
                        assert(!(over[q].1 is Null));
                    }
                }
            }
            lemma_key_index_none(all, key);
        }
    }
}

/// No entry of the overlay is new to a base that holds all its keys.
proof fn lemma_nothing_added(
    under: Seq<(Seq<char>, ValueModel)>,
    over: Seq<(Seq<char>, ValueModel)>,
)
    requires
        forall|q: int|
            0 <= q < over.len() && !((#[trigger] over[q]).1 is Null) ==> key_index(
                under,
                over[q].0,
            ) >= 0,
    ensures
        merged_added(under, over).len() == 0,
{
    let added = merged_added(under, over);
    lemma_added_entries(under, over);
    if added.len() > 0 {
        let q = choose|q: int|
            0 <= q < over.len() && over[q] == added[0] && is_added(under)(over[q]);
        assert(key_index(under, over[q].0) >= 0);
    }
}

/// A value with unique keys merged over itself is itself.
pub proof fn lemma_merge_self(value: ValueModel)
    requires
        well_formed(value),
    ensures
        merge_model(value, value) == value,
    decreases value,
{
    if let ValueModel::Object(entries) = value {
        let kept = merged_kept(entries, entries);
        assert forall|i: int| 0 <= i < entries.len() implies kept[i] == entries[i] by {
            lemma_key_index_is(entries, entries[i].0, i);
            assert(well_formed(entries[i].1));
            lemma_merge_self(entries[i].1);
        }
        assert(kept =~= entries);
        assert forall|q: int| 0 <= q < entries.len() implies key_index(
            entries,
            (#[trigger] entries[q]).0,
        ) >= 0 by {
            lemma_key_index_is(entries, entries[q].0, q);
        }
        lemma_nothing_added(entries, entries);
        assert(kept + merged_added(entries, entries) =~= entries);
    }
}

/// Merging the same overlay a second time changes nothing more. The
/// overlay's keys have to be unique.
pub proof fn lemma_merge_idempotent(base: ValueModel, overlay: ValueModel)
    requires
        well_formed(overlay),
    ensures
        merge_model(merge_model(base, overlay), overlay) == merge_model(base, overlay),
    decreases overlay,
{
    if let ValueModel::Object(over) = overlay {
        if let ValueModel::Object(under) = base {
            let kept = merged_kept(under, over);
            let added = merged_added(under, over);
            let all = kept + added;
            let again = merged_kept(all, over);
            lemma_added_entries(under, over);
            assert forall|i: int| 0 <= i < all.len() implies again[i] == all[i] by {
                if i < kept.len() {
                    assert(all[i] == kept[i]);
                    let j = key_index(over, under[i].0);
                    lemma_key_index(over, under[i].0);
                    if 0 <= j < over.len() {
                        assert(well_formed(over[j].1));
                        lemma_merge_idempotent(under[i].1, over[j].1);
                    }
                } else {
                    let p = i - kept.len();
                    assert(all[i] == added[p]);
                    let q = choose|q: int|
                        p <= q < over.len() && over[q] == added[p] && is_added(under)(over[q]);
                    lemma_key_index_is(over, over[q].0, q);
                    assert(well_formed(over[q].1));
                    lemma_merge_self(over[q].1);
                }
            }
            assert(again =~= all);
            assert forall|q: int|
                0 <= q < over.len() && !((#[trigger] over[q]).1 is Null) implies key_index(
                all,
                over[q].0,
            ) >= 0 by {
                let i = key_index(under, over[q].0);
                lemma_key_index(under, over[q].0);
                lemma_key_index(all, over[q].0);
                if i >= 0 {
                    assert(all[i] == kept[i]);
                    assert(all[i].0 == over[q].0);
                } else {
                    over.lemma_filter_contains(is_added(under), q);
                    let p = choose|p: int| 0 <= p < added.len() && added[p] == over[q];
                    assert(all[kept.len() + p] == added[p]);
                    assert(all[kept.len() + p].0 == over[q].0);
                }
            }
            lemma_nothing_added(all, over);
            assert(again + merged_added(all, over) =~= all);
        } else {
            lemma_merge_self(overlay);
        }
    }
}

/// At a leaf too a scalar overlay is the result: under a key that both
/// objects hold, the scalar of the overlay replaces what the base holds.
pub proof fn lemma_merge_scalar_leaf(key: Seq<char>, base: ValueModel, overlay: ValueModel)
    requires
        is_scalar(overlay),
    ensures
        merge_model(
            ValueModel::Object(seq![(key, base)]),
            ValueModel::Object(seq![(key, overlay)]),
        ) == ValueModel::Object(seq![(key, overlay)]),
{
    let under = seq![(key, base)];
    let over = seq![(key, overlay)];
    lemma_key_index_is(over, key, 0);
    lemma_key_index_is(under, key, 0);
    lemma_nothing_added(under, over);
    assert(merged_kept(under, over) + merged_added(under, over) =~= over);
}

/// Over any base, a scalar overlay is the result.
pub proof fn lemma_merge_scalar_overlay(base: ValueModel, overlay: ValueModel)
    requires
        is_scalar(overlay),
    ensures
        merge_model(base, overlay) == overlay,
{
}

/// The entries of two objects, merged.
#[verifier::loop_isolation(false)]
fn merge_entries(
    under: &Vec<(String, StructuredValue)>,
    over: &Vec<(String, StructuredValue)>,
) -> (r: Vec<(String, StructuredValue)>)
    ensures
        entries_view(r@) == merged_kept(entries_view(under@), entries_view(over@)) + merged_added(
            entries_view(under@),
            entries_view(over@),
        ),
    decreases over, 0int,
{
    let ghost um = entries_view(under@);
    let ghost om = entries_view(over@);
    let mut out: Vec<(String, StructuredValue)> = Vec::new();
    let mut i: usize = 0;
    while i < under.len()
        invariant
            0 <= i <= under.len(),
            out.len() == i,
            entries_view(out@) == merged_kept(um, om).take(i as int),
        decreases under.len() - i,
    {
        let value = match find_key(over, under[i].0.as_str()) {
            Some(j) => merge(&under[i].1, &over[j].1),
            None => under[i].1.duplicate(),
        };
        out.push((under[i].0.clone(), value));
        proof {
            lemma_key_index(om, um[i as int].0);
        }
        i += 1;
    }
    let mut j: usize = 0;
    while j < over.len()
        invariant
            0 <= j <= over.len(),
            entries_view(out@) == merged_kept(um, om) + merged_added(um, om.take(j as int)),
        decreases over.len() - j,
    {
        let ghost before = entries_view(out@);
        let ghost next = om.take(j + 1);
        proof {
            reveal(Seq::filter);
            assert(next.drop_last() =~= om.take(j as int));
        }
        if !over[j].1.is_null() && find_key(under, over[j].0.as_str()).is_none() {
            out.push((over[j].0.clone(), over[j].1.duplicate()));
            assert(before.push(om[j as int]) =~= merged_kept(um, om) + merged_added(um, next));
        }
        j += 1;
    }
    assert(om.take(j as int) =~= om);
    out
}

/// Merges `overlay` over `base`.
///
/// Where both are objects, the result has the keys of the base in their
/// order, each value merged with the overlay's value under that key, and
/// then the keys that only the overlay has, in the overlay's order, but
/// for those whose value is `Null`. A `Null` overlay gives the base; any
/// other overlay replaces the base.
pub fn merge(base: &StructuredValue, overlay: &StructuredValue) -> (r: StructuredValue)
    ensures
        r@ == merge_model(base@, overlay@),
        well_formed(base@) && well_formed(overlay@) ==> well_formed(r@),
    decreases overlay, 1int,
{
    proof {
        if well_formed(base@) && well_formed(overlay@) {
            lemma_merge_well_formed(base@, overlay@);
        }
    }
    match overlay {
        StructuredValue::Null => base.duplicate(),
        StructuredValue::Object(over) => match base {
            StructuredValue::Object(under) => StructuredValue::Object(merge_entries(under, over)),
            _ => overlay.duplicate(),
        },
        _ => overlay.duplicate(),
    }
}

} // verus!
