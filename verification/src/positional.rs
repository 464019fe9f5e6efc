//! Handing the trailing tokens of a command line to the positional
//! fields.

use crate::schema::{fields_view, optional_view, FieldModel, FieldSchema, ValueKind};
use crate::value::{items_view, StructuredValue, ValueModel};
use vstd::prelude::*;

verus! {

/// How many of `available` tokens a field takes: a field that is not
/// positional none, a positional list all of them, and any other
/// positional field one, if there is one.
pub open spec fn tokens_taken(field: FieldModel, available: int) -> int {
    if !field.is_positional || available <= 0 {
        0
    } else if field.value_kind == ValueKind::List {
        available
    } else {
        1
    }
}

/// The position in the tokens at which the `i`-th field starts to take.
pub open spec fn token_cursor(fields: Seq<FieldModel>, tokens: int, i: int) -> int
    decreases i,
{
    if i <= 0 {
        0
    } else {
        let before = token_cursor(fields, tokens, i - 1);
        before + tokens_taken(fields[i - 1], tokens - before)
    }
}

/// The tokens from `from` on, each as a text value.
pub open spec fn token_values(tokens: Seq<Seq<char>>, from: int) -> Seq<ValueModel> {
    Seq::new((tokens.len() - from) as nat, |k: int| ValueModel::Text(tokens[from + k]))
}

/// What a field gets of the tokens from `at` on: nothing where it takes
/// none, the list of all of them where it is a list, and the token at
/// `at` otherwise.
pub open spec fn positional_value(field: FieldModel, tokens: Seq<Seq<char>>, at: int) -> Option<
    ValueModel,
> {
    if tokens_taken(field, tokens.len() - at) == 0 {
        None
    } else if field.value_kind == ValueKind::List {
        Some(ValueModel::List(token_values(tokens, at)))
    } else {
        Some(ValueModel::Text(tokens[at]))
    }
}

/// The value that the command line supplied for a field, from what its
/// parts gave: the positional value where the field got one; else the
/// value of its flag; else `true` where the field is a flag that takes no
/// value and was passed. A flag that was not passed supplies nothing: it
/// is not `false`, so that the configuration can still say `true`.
pub open spec fn supplied_model(
    present: bool,
    positional: Option<ValueModel>,
    flag: Option<ValueModel>,
) -> Option<ValueModel> {
    match positional {
        Some(v) => Some(v),
        None => match flag {
            Some(v) => Some(v),
            None => if present {
                Some(ValueModel::Bool(true))
            } else {
                None
            },
        },
    }
}

/// The value that the command line supplied for a field: `present` says
/// whether a flag that takes no value was passed, `positional` is what
/// the field got of the trailing tokens, and `flag` the value that came
/// with its flag.
pub fn supplied_value(
    present: bool,
    positional: Option<StructuredValue>,
    flag: Option<StructuredValue>,
) -> (r: Option<StructuredValue>)
    ensures
        optional_view(r) == supplied_model(present, optional_view(positional), optional_view(flag)),
{
    match positional {
        Some(v) => Some(v),
        None => match flag {
            Some(v) => Some(v),
            None => if present {
                Some(StructuredValue::Bool(true))
            } else {
                None
            },
        },
    }
}

/// Hands the trailing tokens to the positional fields, in the order of
/// the fields and of the tokens: each positional field takes one token,
/// a positional list all that are left. The result holds for each field
/// what it got, `None` where it is not positional or nothing was left.
pub fn assign_positionals(fields: &Vec<FieldSchema>, tokens: &Vec<String>) -> (r: Vec<
    Option<StructuredValue>,
>)
    ensures
        r.len() == fields.len(),
        forall|i: int|
            0 <= i < fields.len() ==> optional_view(#[trigger] r[i]) == positional_value(
                fields[i]@,
                tokens.deep_view(),
                token_cursor(fields_view(fields@), tokens.len() as int, i),
            ),
{
    let ghost models = fields_view(fields@);
    let ghost texts = tokens.deep_view();
    let mut out: Vec<Option<StructuredValue>> = Vec::new();
    let mut at: usize = 0;
    let mut i: usize = 0;
    while i < fields.len()
        invariant
            0 <= i <= fields.len(),
            0 <= at <= tokens.len(),
            models == fields_view(fields@),
            texts == tokens.deep_view(),
            out.len() == i,
            at == token_cursor(models, tokens.len() as int, i as int),
            forall|j: int|
                0 <= j < i ==> optional_view(#[trigger] out[j]) == positional_value(
                    fields[j]@,
                    texts,
                    token_cursor(models, tokens.len() as int, j),
                ),
        decreases fields.len() - i,
    {
        if !fields[i].is_positional || at >= tokens.len() {
            out.push(None);
        } else {
            match fields[i].value_kind {
                ValueKind::List => {
                    let mut items: Vec<StructuredValue> = Vec::new();
                    let mut k: usize = at;
                    while k < tokens.len()
                        invariant
                            at <= k <= tokens.len(),
                            items.len() == k - at,
                            texts == tokens.deep_view(),
                            forall|m: int|
                                0 <= m < items.len() ==> (#[trigger] items[m])@
                                    == ValueModel::Text(texts[at + m]),
                        decreases tokens.len() - k,
                    {
                        items.push(StructuredValue::Text(tokens[k].clone()));
                        k += 1;
                    }
                    assert(items_view(items@) =~= token_values(texts, at as int));
                    out.push(Some(StructuredValue::List(items)));
                    at = tokens.len();
                },
                _ => {
                    out.push(Some(StructuredValue::Text(tokens[at].clone())));
                    at += 1;
                },
            }
        }
        i += 1;
    }
    out
}

} // verus!
