//! Resolving one field: what the command line gave, what the merged
//! configuration document holds, and which of the two the field's policy
//! lets win.

use crate::parse_attrs::{FieldAvailability, MultiValueBehavior};
use crate::schema::{FieldModel, FieldSchema, ValueKind};
use crate::value::{items_view, lookup, StructuredValue, ValueModel};
use vstd::prelude::*;

verus! {

/// The zero value of a kind: `false`, the empty list, the empty object,
/// and `Null` for a scalar, which has no value of its own to fall back on.
pub open spec fn zero_value(kind: ValueKind) -> ValueModel {
    match kind {
        ValueKind::Scalar => ValueModel::Null,
        ValueKind::Boolean => ValueModel::Bool(false),
        ValueKind::List => ValueModel::List(Seq::empty()),
        ValueKind::Struct => ValueModel::Object(Seq::empty()),
    }
}

/// The default of a field: the declared one, or the zero value of its kind.
pub open spec fn field_default(field: FieldModel) -> ValueModel {
    match field.default_value {
        Some(v) => v,
        None => zero_value(field.value_kind),
    }
}

/// What the merged document gives a field: the value under the field's
/// key as it stands, or the field's default where the document has no such
/// key.
pub open spec fn config_value(field: FieldModel, merged: ValueModel) -> ValueModel {
    match lookup(merged, field.key) {
        Some(v) => v,
        None => field_default(field),
    }
}

/// The list that the command line supplied: a list is supplied where it
/// has at least one item.
pub open spec fn supplied_list(cli: Option<ValueModel>) -> Option<Seq<ValueModel>> {
    match cli {
        Some(ValueModel::List(items)) => if items.len() > 0 {
            Some(items)
        } else {
            None
        },
        _ => None,
    }
}

/// The items of a list; a value that is no list has none.
pub open spec fn list_items(value: ValueModel) -> Seq<ValueModel> {
    match value {
        ValueModel::List(items) => items,
        _ => Seq::empty(),
    }
}

/// The final value of a field.
///
/// - An internal field is the zero value of its kind, whatever was given.
/// - A field of the command line alone is the command line's value, or
///   the field's default.
/// - A field of the configuration alone is the configuration's value.
/// - A field of both is the command line's value where one was given, and
///   the configuration's value where none was. For a list, the supplied
///   items replace the configuration's list or are appended to it.
pub open spec fn resolved_value(
    field: FieldModel,
    cli: Option<ValueModel>,
    merged: ValueModel,
) -> ValueModel {
    match field.availability {
        FieldAvailability::Internal => zero_value(field.value_kind),
        FieldAvailability::CliOnly => match cli {
            Some(v) => v,
            None => field_default(field),
        },
        FieldAvailability::ConfigOnly => config_value(field, merged),
        FieldAvailability::CliAndConfig => if field.value_kind == ValueKind::List {
            match supplied_list(cli) {
                Some(items) => match field.multi_value_behavior {
                    MultiValueBehavior::Overwrite => ValueModel::List(items),
                    MultiValueBehavior::Extend => ValueModel::List(
                        list_items(config_value(field, merged)) + items,
                    ),
                },
                None => config_value(field, merged),
            }
        } else {
            match cli {
                Some(v) => v,
                None => config_value(field, merged),
            }
        },
    }
}

/// A list field of both sources that extends: the items of the command
/// line follow those of the configuration, each in their order.
pub proof fn lemma_extend_appends(
    field: FieldModel,
    config_items: Seq<ValueModel>,
    cli_items: Seq<ValueModel>,
    merged: ValueModel,
)
    requires
        field.availability == FieldAvailability::CliAndConfig,
        field.value_kind == ValueKind::List,
        field.multi_value_behavior == MultiValueBehavior::Extend,
        config_value(field, merged) == ValueModel::List(config_items),
        cli_items.len() > 0,
    ensures
        resolved_value(field, Some(ValueModel::List(cli_items)), merged) == ValueModel::List(
            config_items + cli_items,
        ),
        resolved_value(field, None, merged) == ValueModel::List(config_items),
{
}

/// A list field of both sources that overwrites: the list of the command
/// line where one was supplied, the list of the configuration where none
/// was.
pub proof fn lemma_overwrite_replaces(
    field: FieldModel,
    config_items: Seq<ValueModel>,
    cli_items: Seq<ValueModel>,
    merged: ValueModel,
)
    requires
        field.availability == FieldAvailability::CliAndConfig,
        field.value_kind == ValueKind::List,
        field.multi_value_behavior == MultiValueBehavior::Overwrite,
        config_value(field, merged) == ValueModel::List(config_items),
        cli_items.len() > 0,
    ensures
        resolved_value(field, Some(ValueModel::List(cli_items)), merged) == ValueModel::List(
            cli_items,
        ),
        resolved_value(field, None, merged) == ValueModel::List(config_items),
{
}

/// A field of both sources that is no list: a value of the command line
/// wins, whatever the configuration holds.
pub proof fn lemma_cli_wins(field: FieldModel, cli: ValueModel, merged: ValueModel)
    requires
        field.availability == FieldAvailability::CliAndConfig,
        field.value_kind != ValueKind::List,
    ensures
        resolved_value(field, Some(cli), merged) == cli,
{
}

/// A field of both sources that the command line left alone takes what
/// the configuration holds under its key, a `true` for a flag included.
pub proof fn lemma_config_fallback(field: FieldModel, merged: ValueModel, value: ValueModel)
    requires
        field.availability == FieldAvailability::CliAndConfig,
        lookup(merged, field.key) == Some(value),
    ensures
        resolved_value(field, None, merged) == value,
{
}

/// The zero value of a kind.
pub fn zero_of(kind: ValueKind) -> (r: StructuredValue)
    ensures
        r@ == zero_value(kind),
{
    match kind {
        ValueKind::Scalar => StructuredValue::Null,
        ValueKind::Boolean => StructuredValue::Bool(false),
        ValueKind::List => {
            let items: Vec<StructuredValue> = Vec::new();
            assert(items_view(items@) =~= Seq::empty());
            StructuredValue::List(items)
        },
        ValueKind::Struct => {
            let entries: Vec<(String, StructuredValue)> = Vec::new();
            assert(crate::value::entries_view(entries@) =~= Seq::empty());
            StructuredValue::Object(entries)
        },
    }
}

/// The default of a field.
pub fn default_of(field: &FieldSchema) -> (r: StructuredValue)
    ensures
        r@ == field_default(field@),
{
    match &field.default_value {
        Some(v) => v.duplicate(),
        None => zero_of(field.value_kind),
    }
}

/// What the merged document gives a field.
pub fn config_value_of(field: &FieldSchema, merged: &StructuredValue) -> (r: StructuredValue)
    ensures
        r@ == config_value(field@, merged@),
{
    match merged.get(field.key.as_str()) {
        Some(v) => v.duplicate(),
        None => default_of(field),
    }
}

/// The items of `first` followed by those of `second`.
fn concat_items(first: &Vec<StructuredValue>, second: &Vec<StructuredValue>) -> (r: Vec<
    StructuredValue,
>)
    ensures
        items_view(r@) == items_view(first@) + items_view(second@),
{
    let mut out: Vec<StructuredValue> = Vec::new();
    let mut i: usize = 0;
    while i < first.len()
        invariant
            0 <= i <= first.len(),
            out.len() == i,
            forall|j: int| 0 <= j < i ==> (#[trigger] out[j])@ == first[j]@,
        decreases first.len() - i,
    {
        out.push(first[i].duplicate());
        i += 1;
    }
    let mut k: usize = 0;
    while k < second.len()
        invariant
            0 <= k <= second.len(),
            out.len() == first.len() + k,
            forall|j: int| 0 <= j < first.len() ==> (#[trigger] out[j])@ == first[j]@,
            forall|j: int| 0 <= j < k ==> (#[trigger] out[first.len() + j])@ == second[j]@,
        decreases second.len() - k,
    {
        out.push(second[k].duplicate());
        k += 1;
    }
    assert(items_view(out@) =~= items_view(first@) + items_view(second@)) by {
        assert forall|j: int| 0 <= j < out.len() implies items_view(out@)[j] == (items_view(first@)
            + items_view(second@))[j] by {
            if j >= first.len() {
                assert(out[first.len() + (j - first.len())]@ == second[j - first.len()]@);
            }
        }
    }
    out
}

/// Resolves one field from the value that the command line supplied for
/// it, if any, and the merged configuration document.
pub fn resolve_field(
    field: &FieldSchema,
    cli: Option<&StructuredValue>,
    merged: &StructuredValue,
) -> (r: StructuredValue)
    ensures
        r@ == resolved_value(
            field@,
            match cli {
                Some(v) => Some(v@),
                None => None,
            },
            merged@,
        ),
{
    match field.availability {
        FieldAvailability::Internal => zero_of(field.value_kind),
        FieldAvailability::CliOnly => match cli {
            Some(v) => v.duplicate(),
            None => default_of(field),
        },
        FieldAvailability::ConfigOnly => config_value_of(field, merged),
        FieldAvailability::CliAndConfig => {
            match field.value_kind {
                ValueKind::List => {
                    match cli {
                        Some(StructuredValue::List(items)) => {
                            if items.len() > 0 {
                                match field.multi_value_behavior {
                                    MultiValueBehavior::Overwrite => StructuredValue::List(
                                        concat_items(&Vec::new(), items),
                                    ),
                                    MultiValueBehavior::Extend => {
                                        let from_config = config_value_of(field, merged);
                                        match &from_config {
                                            StructuredValue::List(base) => StructuredValue::List(
                                                concat_items(base, items),
                                            ),
                                            _ => StructuredValue::List(
                                                concat_items(&Vec::new(), items),
                                            ),
                                        }
                                    },
                                }
                            } else {
                                config_value_of(field, merged)
                            }
                        },
                        _ => config_value_of(field, merged),
                    }
                },
                _ => match cli {
                    Some(v) => v.duplicate(),
                    None => config_value_of(field, merged),
                },
            }
        },
    }
}

} // verus!
