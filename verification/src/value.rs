//! The format-independent tree that every decoded configuration document
//! becomes, and its mathematical model.

use crate::text::text_eq;
use vstd::prelude::*;

verus! {

/// The mathematical model of a [`StructuredValue`].
///
/// An object is a sequence of entries, so that the order in which the keys
/// were written is part of the value.
pub enum ValueModel {
    Null,
    Bool(bool),
    Number(Seq<char>),
    Text(Seq<char>),
    List(Seq<ValueModel>),
    Object(Seq<(Seq<char>, ValueModel)>),
}

/// A decoded configuration value.
///
/// `Number` holds the decimal text of the number, `Text` a string, and
/// `Object` the entries of a mapping in document order.
#[derive(Debug, PartialEq, Eq)]
pub enum StructuredValue {
    Null,
    Bool(bool),
    Number(String),
    Text(String),
    List(Vec<StructuredValue>),
    Object(Vec<(String, StructuredValue)>),
}

/// The models of the items of a list.
pub open spec fn items_view(items: Seq<StructuredValue>) -> Seq<ValueModel>
    decreases items,
{
    Seq::new(
        items.len(),
        |i: int|
            if 0 <= i < items.len() {
                items[i]@
            } else {
                ValueModel::Null
            },
    )
}

/// The models of the entries of an object.
pub open spec fn entries_view(entries: Seq<(String, StructuredValue)>) -> Seq<
    (Seq<char>, ValueModel),
>
    decreases entries,
{
    Seq::new(
        entries.len(),
        |i: int|
            if 0 <= i < entries.len() {
                (entries[i].0@, entries[i].1@)
            } else {
                (Seq::empty(), ValueModel::Null)
            },
    )
}

impl View for StructuredValue {
    type V = ValueModel;

    open spec fn view(&self) -> ValueModel
        decreases self,
    {
        match self {
            StructuredValue::Null => ValueModel::Null,
            StructuredValue::Bool(b) => ValueModel::Bool(*b),
            StructuredValue::Number(n) => ValueModel::Number(n@),
            StructuredValue::Text(s) => ValueModel::Text(s@),
            StructuredValue::List(items) => ValueModel::List(items_view(items@)),
            StructuredValue::Object(entries) => ValueModel::Object(entries_view(entries@)),
        }
    }
}

/// The index of the first entry whose key is `key`, or -1.
pub open spec fn key_index(entries: Seq<(Seq<char>, ValueModel)>, key: Seq<char>) -> int
    decreases entries.len(),
{
    if entries.len() == 0 {
        -1
    } else if entries[0].0 == key {
        0
    } else {
        let rest = key_index(entries.skip(1), key);
        if rest < 0 {
            -1
        } else {
            rest + 1
        }
    }
}

/// No key occurs in two entries.
pub open spec fn keys_unique(entries: Seq<(Seq<char>, ValueModel)>) -> bool {
    forall|i: int, j: int|
        0 <= i < j < entries.len() ==> (#[trigger] entries[i]).0 != (#[trigger] entries[j]).0
}

/// Every object in the tree has unique keys.
pub open spec fn well_formed(m: ValueModel) -> bool
    decreases m,
{
    match m {
        ValueModel::List(items) => forall|i: int|
            0 <= i < items.len() ==> well_formed(#[trigger] items[i]),
        ValueModel::Object(entries) => keys_unique(entries) && forall|i: int|
            0 <= i < entries.len() ==> well_formed((#[trigger] entries[i]).1),
        _ => true,
    }
}

/// What `key_index` returns: the least index of an entry with the key, or
/// -1 when no entry has it.
pub proof fn lemma_key_index(entries: Seq<(Seq<char>, ValueModel)>, key: Seq<char>)
    ensures
        -1 <= key_index(entries, key) < entries.len(),
        key_index(entries, key) >= 0 ==> entries[key_index(entries, key)].0 == key,
        forall|j: int|
            0 <= j < entries.len() && (key_index(entries, key) < 0 || j < key_index(entries, key))
                ==> (#[trigger] entries[j]).0 != key,
    decreases entries.len(),
{
    if entries.len() > 0 && entries[0].0 != key {
        let rest = entries.skip(1);
        lemma_key_index(rest, key);
        assert forall|j: int|
            0 <= j < entries.len() && (key_index(entries, key) < 0 || j < key_index(
                entries,
                key,
            )) implies (#[trigger] entries[j]).0 != key by {
            if j > 0 {
                assert(rest[j - 1] == entries[j]);
            }
        }
    }
}

/// The least index of an entry with the key is what `key_index` returns.
pub proof fn lemma_key_index_is(entries: Seq<(Seq<char>, ValueModel)>, key: Seq<char>, i: int)
    requires
        0 <= i < entries.len(),
        entries[i].0 == key,
        forall|j: int| 0 <= j < i ==> (#[trigger] entries[j]).0 != key,
    ensures
        key_index(entries, key) == i,
{
    lemma_key_index(entries, key);
    let k = key_index(entries, key);
    if k < 0 || i < k {
        assert(entries[i].0 != key);
    }
    if 0 <= k < i {
        assert(entries[k].0 != key);
    }
}

/// Where no entry has the key, `key_index` returns -1.
pub proof fn lemma_key_index_none(entries: Seq<(Seq<char>, ValueModel)>, key: Seq<char>)
    requires
        forall|j: int| 0 <= j < entries.len() ==> (#[trigger] entries[j]).0 != key,
    ensures
        key_index(entries, key) == -1,
{
    lemma_key_index(entries, key);
    let k = key_index(entries, key);
    if k >= 0 {
        assert(entries[k].0 != key);
    }
}

/// The value under `key` in an object, if the model is an object that has
/// the key.
pub open spec fn lookup(m: ValueModel, key: Seq<char>) -> Option<ValueModel> {
    match m {
        ValueModel::Object(entries) => {
            let i = key_index(entries, key);
            if i >= 0 {
                Some(entries[i].1)
            } else {
                None
            }
        },
        _ => None,
    }
}

/// The position of the first entry of `entries` whose key is `key`.
pub fn find_key(entries: &Vec<(String, StructuredValue)>, key: &str) -> (r: Option<usize>)
    ensures
        match r {
            Some(i) => i < entries.len() && i as int == key_index(entries_view(entries@), key@),
            None => key_index(entries_view(entries@), key@) == -1,
        },
{
    let ghost model = entries_view(entries@);
    let mut i: usize = 0;
    while i < entries.len()
        invariant
            0 <= i <= entries.len(),
            model == entries_view(entries@),
            forall|j: int| 0 <= j < i ==> (#[trigger] model[j]).0 != key@,
        decreases entries.len() - i,
    {
        if text_eq(entries[i].0.as_str(), key) {
            proof {
                lemma_key_index(model, key@);
                assert(model[i as int].0 == key@);
            }
            return Some(i);
        }
        i += 1;
    }
    proof {
        lemma_key_index(model, key@);
    }
    None
}

impl Clone for StructuredValue {
    fn clone(&self) -> (r: Self)
        ensures
            r@ == self@,
    {
        self.duplicate()
    }
}

impl StructuredValue {
    /// Whether the value is `Null`.
    pub fn is_null(&self) -> (r: bool)
        ensures
            r == (self@ is Null),
    {
        match self {
            StructuredValue::Null => true,
            _ => false,
        }
    }

    /// A copy of the value.
    #[verifier::loop_isolation(false)]
    pub fn duplicate(&self) -> (r: StructuredValue)
        ensures
            r@ == self@,
        decreases self,
    {
        match self {
            StructuredValue::Null => StructuredValue::Null,
            StructuredValue::Bool(b) => StructuredValue::Bool(*b),
            StructuredValue::Number(n) => StructuredValue::Number(n.clone()),
            StructuredValue::Text(s) => StructuredValue::Text(s.clone()),
            StructuredValue::List(items) => {
                let mut out: Vec<StructuredValue> = Vec::new();
                let mut i: usize = 0;
                while i < items.len()
                    invariant
                        0 <= i <= items.len(),
                        out.len() == i,
                        forall|j: int| 0 <= j < i ==> (#[trigger] out[j])@ == items[j]@,
                    decreases items.len() - i,
                {
                    out.push(items[i].duplicate());
                    i += 1;
                }
                assert(items_view(out@) =~= items_view(items@));
                StructuredValue::List(out)
            },
            StructuredValue::Object(entries) => {
                let mut out: Vec<(String, StructuredValue)> = Vec::new();
                let mut i: usize = 0;
                while i < entries.len()
                    invariant
                        0 <= i <= entries.len(),
                        out.len() == i,
                        forall|j: int|
                            0 <= j < i ==> (#[trigger] out[j]).0@ == entries[j].0@ && out[j].1@
                                == entries[j].1@,
                    decreases entries.len() - i,
                {
                    out.push((entries[i].0.clone(), entries[i].1.duplicate()));
                    i += 1;
                }
                assert(entries_view(out@) =~= entries_view(entries@));
                StructuredValue::Object(out)
            },
        }
    }

    /// Whether no object in the value holds a key twice.
    #[verifier::loop_isolation(false)]
    pub fn is_well_formed(&self) -> (r: bool)
        ensures
            r == well_formed(self@),
        decreases self,
    {
        match self {
            StructuredValue::List(items) => {
                let ghost model = items_view(items@);
                let mut i: usize = 0;
                while i < items.len()
                    invariant
                        0 <= i <= items.len(),
                        forall|j: int| 0 <= j < i ==> well_formed(#[trigger] model[j]),
                    decreases items.len() - i,
                {
                    if !items[i].is_well_formed() {
                        proof {
                            if well_formed(self@) {
                                assert(well_formed(self@->List_0[i as int]));
                            }
                        }
                        return false;
                    }
                    i += 1;
                }
                true
            },
            StructuredValue::Object(entries) => {
                let ghost model = entries_view(entries@);
                let mut i: usize = 0;
                while i < entries.len()
                    invariant
                        0 <= i <= entries.len(),
                        forall|j: int| 0 <= j < i ==> well_formed((#[trigger] model[j]).1),
                        forall|a: int, b: int|
                            0 <= a < b < i ==> (#[trigger] model[a]).0 != (#[trigger] model[b]).0,
                    decreases entries.len() - i,
                {
                    if !entries[i].1.is_well_formed() {
                        proof {
                            if well_formed(self@) {
                                assert(well_formed(self@->Object_0[i as int].1));
                            }
                        }
                        return false;
                    }
                    let first = find_key(entries, entries[i].0.as_str());
                    proof {
                        lemma_key_index(model, model[i as int].0);
                    }
                    match first {
                        Some(first) => {
                            if first < i {
                                assert(model[first as int].0 == model[i as int].0);
                                return false;
                            }
                        },
                        None => {},
                    }
                    i += 1;
                }
                true
            },
            _ => true,
        }
    }

    /// The value under `key`, when this is an object that has the key.
    pub fn get(&self, key: &str) -> (r: Option<&StructuredValue>)
        ensures
            match r {
                Some(v) => lookup(self@, key@) == Some(v@),
                None => lookup(self@, key@) is None,
            },
    {
        match self {
            StructuredValue::Object(entries) => {
                match find_key(entries, key) {
                    Some(i) => Some(&entries[i].1),
                    None => None,
                }
            },
            _ => None,
        }
    }
}

} // verus!
