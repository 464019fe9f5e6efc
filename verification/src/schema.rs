//! The schema of a configuration as the resolution reads it, and how it
//! follows from the declarations: the key of each field in configuration
//! documents, its argument on the command line, its kind and its default.

use crate::parse_attrs::{
    parse_fields, parse_struct_level_attrs, parsed_field, AttributeDecl, FieldAvailability,
    FieldDecl, FieldInfo, MacroConfig, MultiValueBehavior, SchemaError, SchemaErrorKind,
};
use crate::text::{is_word, spells};
use crate::value::{items_view, StructuredValue, ValueModel};
use vstd::prelude::*;

verus! {

/// The shape of the values of a field.
#[derive(Debug, Clone, Copy, PartialEq, Eq, Structural)]
pub enum ValueKind {
    Scalar,
    Boolean,
    List,
    Struct,
}

/// One configurable field, as the resolution reads it.
///
/// A positional field takes its value from the command line alone.
#[derive(Debug, Clone, PartialEq, Eq)]
pub struct FieldSchema {
    /// The name of the field in configuration documents.
    pub key: String,
    /// The long name of its command-line flag.
    pub long: String,
    /// The short flag, if it has one.
    pub short: Option<char>,
    pub value_kind: ValueKind,
    pub availability: FieldAvailability,
    /// How lists combine; it matters for a field of kind `List` only.
    pub multi_value_behavior: MultiValueBehavior,
    pub is_positional: bool,
    /// The declared default, if there is one.
    pub default_value: Option<StructuredValue>,
}

/// The model of a [`FieldSchema`]: what the resolution of the field
/// depends on.
pub struct FieldModel {
    pub key: Seq<char>,
    pub long: Seq<char>,
    pub short: Option<char>,
    pub value_kind: ValueKind,
    pub availability: FieldAvailability,
    pub multi_value_behavior: MultiValueBehavior,
    pub is_positional: bool,
    pub default_value: Option<ValueModel>,
}

/// The model of an optional value.
pub open spec fn optional_view(value: Option<StructuredValue>) -> Option<ValueModel> {
    match value {
        Some(v) => Some(v@),
        None => None,
    }
}

impl View for FieldSchema {
    type V = FieldModel;

    open spec fn view(&self) -> FieldModel {
        FieldModel {
            key: self.key@,
            long: self.long@,
            short: self.short,
            value_kind: self.value_kind,
            availability: self.availability,
            multi_value_behavior: self.multi_value_behavior,
            is_positional: self.is_positional,
            default_value: optional_view(self.default_value),
        }
    }
}

/// A positional field is a field of the command line alone.
pub open spec fn valid_field(field: FieldModel) -> bool {
    field.is_positional ==> field.availability == FieldAvailability::CliOnly
}

/// The models of the fields of a schema.
pub open spec fn fields_view(fields: Seq<FieldSchema>) -> Seq<FieldModel> {
    Seq::new(fields.len(), |i: int| fields[i]@)
}

/// The schema of a configuration: what is declared for the whole, and its
/// fields in their order.
#[derive(Debug, Clone, PartialEq, Eq)]
pub struct Schema {
    pub config: MacroConfig,
    pub fields: Vec<FieldSchema>,
}

/// How the command line takes the values of an argument.
#[derive(Debug, Clone, Copy, PartialEq, Eq, Structural)]
pub enum ArgAction {
    /// One value.
    Store,
    /// No value: the flag alone means `true`.
    StoreTrue,
    /// One value or more, each occurrence adding to the list.
    Append,
}

/// The default that the command line declares for an argument.
#[derive(Debug, PartialEq, Eq)]
pub enum ArgDefault {
    Absent,
    Flag(bool),
    Text(String),
}

/// The argument of a field on the command line.
#[derive(Debug, PartialEq, Eq)]
pub struct CliArgument {
    /// The name of the field.
    pub ident: String,
    /// The long name of the flag, or the name of the value where the
    /// argument is positional.
    pub name: String,
    pub positional: bool,
    pub short: Option<char>,
    pub action: ArgAction,
    pub default: ArgDefault,
}

/// A declaration as a whole: the attributes above it, and its fields where
/// it is a structure with named fields.
#[derive(Debug, PartialEq, Eq)]
pub struct StructDecl {
    pub attrs: Vec<AttributeDecl>,
    pub fields: Option<Vec<FieldDecl>>,
}

/// The kebab-case form that `heck` gives a name.
pub uninterp spec fn kebab_case_of(name: Seq<char>) -> Seq<char>;

/// Calls `heck::ToKebabCase::to_kebab_case`.
///
/// The contract claims only that the result is a function of the name.
#[verifier::external_body]
fn kebab_case(name: &str) -> (r: String)
    ensures
        r@ == kebab_case_of(name@),
{
    heck::ToKebabCase::to_kebab_case(name)
}

/// Whether the field has an argument on the command line.
pub open spec fn on_cli(info: FieldInfo) -> bool {
    info.arg_attrs.availability == FieldAvailability::CliOnly || info.arg_attrs.availability
        == FieldAvailability::CliAndConfig
}

/// Whether the field has a key in configuration documents.
pub open spec fn on_config(info: FieldInfo) -> bool {
    info.arg_attrs.availability == FieldAvailability::ConfigOnly || info.arg_attrs.availability
        == FieldAvailability::CliAndConfig
}

/// The name of the field on the command line: the declared name, or the
/// name of the field in kebab case.
pub open spec fn cli_name(info: FieldInfo) -> Seq<char> {
    match info.arg_attrs.name {
        Some(n) => n@,
        None => kebab_case_of(info.ident@),
    }
}

/// The key of the field in configuration documents: the declared name, or
/// the name of the field as it is.
pub open spec fn config_key_model(info: FieldInfo) -> Seq<char> {
    match info.arg_attrs.name {
        Some(n) => n@,
        None => info.ident@,
    }
}

/// The boolean that a text spells, whatever the case of its letters.
pub open spec fn bool_literal(text: Seq<char>) -> Option<bool> {
    if is_word(text, "true"@, "TRUE"@) {
        Some(true)
    } else if is_word(text, "false"@, "FALSE"@) {
        Some(false)
    } else {
        None
    }
}

/// The kind of a field: `bool` is a boolean, `Vec` a list, and every
/// other type a scalar.
pub open spec fn kind_of(info: FieldInfo) -> ValueKind {
    if info.type_named("bool"@) {
        ValueKind::Boolean
    } else if info.type_named("Vec"@) {
        ValueKind::List
    } else {
        ValueKind::Scalar
    }
}

/// How the command line takes the values of the field.
pub open spec fn cli_action(info: FieldInfo) -> ArgAction {
    if info.arg_attrs.positional {
        if info.type_named("Vec"@) {
            ArgAction::Append
        } else {
            ArgAction::Store
        }
    } else if info.type_named("bool"@) {
        if info.arg_attrs.default_value is Some {
            ArgAction::Store
        } else {
            ArgAction::StoreTrue
        }
    } else if info.type_named("Vec"@) {
        ArgAction::Append
    } else {
        ArgAction::Store
    }
}

/// The default that the command line declares for the field, or the error
/// of a boolean field whose default spells no boolean. A positional
/// argument has no default.
pub open spec fn cli_default(info: FieldInfo) -> Result<ArgDefault, SchemaErrorKind> {
    if info.arg_attrs.positional {
        Ok(ArgDefault::Absent)
    } else {
        match info.arg_attrs.default_value {
            None => Ok(ArgDefault::Absent),
            Some(text) => if info.type_named("bool"@) {
                match bool_literal(text@) {
                    Some(b) => Ok(ArgDefault::Flag(b)),
                    None => Err(SchemaErrorKind::InvalidBoolDefault(text)),
                }
            } else {
                Ok(ArgDefault::Text(text))
            },
        }
    }
}

/// The default of the field as a value: a flag is a boolean, a text is a
/// text, and for a list the text is its one item.
pub open spec fn default_model(info: FieldInfo, default: ArgDefault) -> Option<ValueModel> {
    match default {
        ArgDefault::Absent => None,
        ArgDefault::Flag(b) => Some(ValueModel::Bool(b)),
        ArgDefault::Text(text) => if info.type_named("Vec"@) {
            Some(ValueModel::List(seq![ValueModel::Text(text@)]))
        } else {
            Some(ValueModel::Text(text@))
        },
    }
}

/// The schema of a field, or what is wrong with its declaration: a
/// positional field that is not of the command line alone, or a boolean
/// field whose default spells no boolean. A field without an argument on
/// the command line has no declared default.
pub open spec fn schema_of(info: FieldInfo) -> Result<FieldModel, SchemaErrorKind> {
    if info.arg_attrs.positional && info.arg_attrs.availability != FieldAvailability::CliOnly {
        Err(SchemaErrorKind::PositionalAcceptFrom)
    } else {
        let default = if on_cli(info) {
            cli_default(info)
        } else {
            Ok(ArgDefault::Absent)
        };
        match default {
            Err(e) => Err(e),
            Ok(d) => Ok(
                FieldModel {
                    key: config_key_model(info),
                    long: cli_name(info),
                    short: info.arg_attrs.short,
                    value_kind: kind_of(info),
                    availability: info.arg_attrs.availability,
                    multi_value_behavior: info.arg_attrs.multi_value_behavior,
                    is_positional: info.arg_attrs.positional,
                    default_value: default_model(info, d),
                },
            ),
        }
    }
}

/// The value of a token of the command line for a field of a kind: for
/// a boolean field the boolean that it spells, and otherwise, or where it
/// spells none, the token as a text.
pub open spec fn token_value(kind: ValueKind, token: Seq<char>) -> ValueModel {
    match bool_literal(token) {
        Some(b) => if kind == ValueKind::Boolean {
            ValueModel::Bool(b)
        } else {
            ValueModel::Text(token)
        },
        None => ValueModel::Text(token),
    }
}

/// The value of a token of the command line for a field of kind `kind`.
pub fn cli_value(kind: ValueKind, token: &str) -> (r: StructuredValue)
    ensures
        r@ == token_value(kind, token@),
{
    match kind {
        ValueKind::Boolean => match parse_bool(token) {
            Some(b) => StructuredValue::Bool(b),
            None => StructuredValue::Text(token.to_owned()),
        },
        _ => StructuredValue::Text(token.to_owned()),
    }
}

/// The boolean that `text` spells, whatever the case of its letters.
pub fn parse_bool(text: &str) -> (r: Option<bool>)
    ensures
        r == bool_literal(text@),
{
    proof {
        reveal_strlit("true");
        reveal_strlit("TRUE");
        reveal_strlit("false");
        reveal_strlit("FALSE");
    }
    if spells(text, "true", "TRUE") {
        Some(true)
    } else if spells(text, "false", "FALSE") {
        Some(false)
    } else {
        None
    }
}

impl FieldInfo {
    /// Whether the field has an argument on the command line.
    pub fn is_on_cli(&self) -> (r: bool)
        ensures
            r == on_cli(*self),
    {
        match self.arg_attrs.availability {
            FieldAvailability::CliOnly => true,
            FieldAvailability::CliAndConfig => true,
            _ => false,
        }
    }

    /// Whether the field has a key in configuration documents.
    pub fn is_on_config(&self) -> (r: bool)
        ensures
            r == on_config(*self),
    {
        match self.arg_attrs.availability {
            FieldAvailability::ConfigOnly => true,
            FieldAvailability::CliAndConfig => true,
            _ => false,
        }
    }

    /// The name of the field on the command line.
    pub fn cli_name(&self) -> (r: String)
        ensures
            r@ == cli_name(*self),
    {
        match &self.arg_attrs.name {
            Some(n) => n.clone(),
            None => kebab_case(self.ident.as_str()),
        }
    }

    /// The key of the field in configuration documents.
    pub fn config_key(&self) -> (r: String)
        ensures
            r@ == config_key_model(*self),
    {
        match &self.arg_attrs.name {
            Some(n) => n.clone(),
            None => self.ident.clone(),
        }
    }

    /// The kind of the field.
    pub fn value_kind(&self) -> (r: ValueKind)
        ensures
            r == kind_of(*self),
    {
        if self.is_bool_type() {
            ValueKind::Boolean
        } else if self.is_vec_type() {
            ValueKind::List
        } else {
            ValueKind::Scalar
        }
    }

    /// The default that the command line declares for the field.
    pub fn cli_default(&self) -> (r: Result<ArgDefault, SchemaErrorKind>)
        ensures
            r == cli_default(*self),
    {
        if self.arg_attrs.positional {
            return Ok(ArgDefault::Absent);
        }
        match &self.arg_attrs.default_value {
            None => Ok(ArgDefault::Absent),
            Some(text) => {
                if self.is_bool_type() {
                    match parse_bool(text.as_str()) {
                        Some(b) => Ok(ArgDefault::Flag(b)),
                        None => Err(SchemaErrorKind::InvalidBoolDefault(text.clone())),
                    }
                } else {
                    Ok(ArgDefault::Text(text.clone()))
                }
            },
        }
    }

    /// The argument of the field on the command line.
    ///
    /// A positional argument takes one value, or all that are left where
    /// the field is a list. A boolean flag without a default takes no
    /// value; with a default, which has to spell `true` or `false`, it
    /// takes one. Any other flag takes one value, a list one or more at
    /// each occurrence.
    pub fn cli_argument(&self) -> (r: Result<CliArgument, SchemaErrorKind>)
        ensures
            match r {
                Ok(a) => {
                    &&& cli_default(*self) == Ok::<ArgDefault, SchemaErrorKind>(a.default)
                    &&& a.ident == self.ident
                    &&& a.name@ == cli_name(*self)
                    &&& a.positional == self.arg_attrs.positional
                    &&& a.short == if self.arg_attrs.positional {
                        None
                    } else {
                        self.arg_attrs.short
                    }
                    &&& a.action == cli_action(*self)
                },
                Err(e) => cli_default(*self) == Err::<ArgDefault, SchemaErrorKind>(e),
            },
    {
        let default = match self.cli_default() {
            Ok(d) => d,
            Err(e) => {
                return Err(e);
            },
        };
        let positional = self.arg_attrs.positional;
        let is_vec = self.is_vec_type();
        let action = if positional {
            if is_vec {
                ArgAction::Append
            } else {
                ArgAction::Store
            }
        } else if self.is_bool_type() {
            match &self.arg_attrs.default_value {
                Some(_) => ArgAction::Store,
                None => ArgAction::StoreTrue,
            }
        } else if is_vec {
            ArgAction::Append
        } else {
            ArgAction::Store
        };
        Ok(
            CliArgument {
                ident: self.ident.clone(),
                name: self.cli_name(),
                positional,
                short: if positional {
                    None
                } else {
                    self.arg_attrs.short
                },
                action,
                default,
            },
        )
    }

    /// The schema of the field.
    pub fn to_schema(&self) -> (r: Result<FieldSchema, SchemaErrorKind>)
        ensures
            match r {
                Ok(f) => schema_of(*self) == Ok::<FieldModel, SchemaErrorKind>(f@) && valid_field(
                    f@,
                ),
                Err(e) => schema_of(*self) == Err::<FieldModel, SchemaErrorKind>(e),
            },
    {
        if self.arg_attrs.positional {
            match self.arg_attrs.availability {
                FieldAvailability::CliOnly => {},
                _ => {
                    return Err(SchemaErrorKind::PositionalAcceptFrom);
                },
            }
        }
        let default = if self.is_on_cli() {
            match self.cli_default() {
                Ok(d) => d,
                Err(e) => {
                    return Err(e);
                },
            }
        } else {
            ArgDefault::Absent
        };
        let is_vec = self.is_vec_type();
        let default_value = match default {
            ArgDefault::Absent => None,
            ArgDefault::Flag(b) => Some(StructuredValue::Bool(b)),
            ArgDefault::Text(text) => {
                if is_vec {
                    let mut items: Vec<StructuredValue> = Vec::new();
                    items.push(StructuredValue::Text(text));
                    assert(items_view(items@) =~= seq![ValueModel::Text(text@)]);
                    Some(StructuredValue::List(items))
                } else {
                    Some(StructuredValue::Text(text))
                }
            },
        };
        Ok(
            FieldSchema {
                key: self.config_key(),
                long: self.cli_name(),
                short: self.arg_attrs.short,
                value_kind: self.value_kind(),
                availability: self.arg_attrs.availability,
                multi_value_behavior: self.arg_attrs.multi_value_behavior,
                is_positional: self.arg_attrs.positional,
                default_value,
            },
        )
    }
}

/// The schema that the declaration of a field gives, or the index of the
/// attribute in error and the error. What is wrong with the field as a
/// whole counts for its first attribute.
pub open spec fn field_schema(decl: FieldDecl) -> Result<FieldModel, (int, SchemaErrorKind)> {
    match parsed_field(decl) {
        Ok(info) => match schema_of(info) {
            Ok(model) => Ok(model),
            Err(kind) => Err((0, kind)),
        },
        Err(e) => Err(e),
    }
}

/// A field whose declaration was accepted has a schema unless it is a
/// boolean flag whose default spells no boolean, and its schema is valid.
pub proof fn lemma_schema_of_parsed(decl: FieldDecl)
    ensures
        parsed_field(decl) matches Ok(info) ==> match schema_of(info) {
            Ok(model) => valid_field(model),
            Err(kind) => kind is InvalidBoolDefault,
        },
{
    crate::parse_attrs::lemma_parsed_field_valid(decl);
}

/// The index of the first field from `from` on that has no schema, or the
/// number of fields.
pub open spec fn first_bad_schema(fields: Seq<FieldDecl>, from: int) -> int
    decreases fields.len() - from,
{
    if from < 0 || from >= fields.len() {
        fields.len() as int
    } else if field_schema(fields[from]) is Err {
        from
    } else {
        first_bad_schema(fields, from + 1)
    }
}

/// The error of a declaration whose fields are `fields`: that of the
/// first field whose attributes are wrong or, where the attributes of all
/// are right, of the first field that has no schema.
pub open spec fn is_fields_error(fields: Seq<FieldDecl>, e: SchemaError) -> bool {
    let bad = crate::parse_attrs::first_bad_field(fields, 0);
    if bad < fields.len() {
        e.field == bad && parsed_field(fields[bad]) == Err::<FieldInfo, (int, SchemaErrorKind)>(
            (e.attribute as int, e.kind),
        )
    } else {
        e.field == first_bad_schema(fields, 0) && e.field < fields.len() && field_schema(
            fields[e.field as int],
        ) == Err::<FieldModel, (int, SchemaErrorKind)>((e.attribute as int, e.kind))
    }
}

/// The index of the first field from `from` on that is not valid, or the
/// number of fields.
pub open spec fn first_invalid_field(fields: Seq<FieldModel>, from: int) -> int
    decreases fields.len() - from,
{
    if from < 0 || from >= fields.len() {
        fields.len() as int
    } else if !valid_field(fields[from]) {
        from
    } else {
        first_invalid_field(fields, from + 1)
    }
}

impl Schema {
    /// The index of the first field that is positional without being a
    /// field of the command line alone, if there is such a field. A schema
    /// is fit for resolution where there is none.
    pub fn first_invalid(&self) -> (r: Option<usize>)
        ensures
            match r {
                Some(i) => i == first_invalid_field(fields_view(self.fields@), 0) && i
                    < self.fields.len(),
                None => first_invalid_field(fields_view(self.fields@), 0) == self.fields.len(),
            },
    {
        let ghost models = fields_view(self.fields@);
        let mut i: usize = 0;
        while i < self.fields.len()
            invariant
                0 <= i <= self.fields.len(),
                models == fields_view(self.fields@),
                first_invalid_field(models, 0) == first_invalid_field(models, i as int),
            decreases self.fields.len() - i,
        {
            if self.fields[i].is_positional {
                match self.fields[i].availability {
                    FieldAvailability::CliOnly => {},
                    _ => {
                        return Some(i);
                    },
                }
            }
            i += 1;
        }
        None
    }
}

/// The arguments of the command line: for each field its argument, or
/// `None` where the field has none. The error is that of the first field
/// whose argument cannot be declared.
pub fn cli_arguments(fields: &Vec<FieldInfo>) -> (r: Result<Vec<Option<CliArgument>>, SchemaError>)
    ensures
        match r {
            Ok(arguments) => {
                &&& arguments.len() == fields.len()
                &&& forall|i: int|
                    0 <= i < fields.len() ==> match #[trigger] arguments[i] {
                        Some(a) => {
                            &&& on_cli(fields[i])
                            &&& cli_default(fields[i]) == Ok::<ArgDefault, SchemaErrorKind>(
                                a.default,
                            )
                            &&& a.ident == fields[i].ident
                            &&& a.name@ == cli_name(fields[i])
                            &&& a.positional == fields[i].arg_attrs.positional
                            &&& a.short == if fields[i].arg_attrs.positional {
                                None
                            } else {
                                fields[i].arg_attrs.short
                            }
                            &&& a.action == cli_action(fields[i])
                        },
                        None => !on_cli(fields[i]),
                    }
            },
            Err(e) => {
                &&& e.field < fields.len()
                &&& e.attribute == 0
                &&& on_cli(fields[e.field as int])
                &&& cli_default(fields[e.field as int]) == Err::<ArgDefault, SchemaErrorKind>(
                    e.kind,
                )
                &&& forall|i: int|
                    0 <= i < e.field && on_cli(#[trigger] fields[i]) ==> cli_default(fields[i])
                        is Ok
            },
        },
{
    let mut out: Vec<Option<CliArgument>> = Vec::new();
    let mut i: usize = 0;
    while i < fields.len()
        invariant
            0 <= i <= fields.len(),
            out.len() == i,
            forall|j: int|
                0 <= j < i ==> match #[trigger] out[j] {
                    Some(a) => {
                        &&& on_cli(fields[j])
                        &&& cli_default(fields[j]) == Ok::<ArgDefault, SchemaErrorKind>(a.default)
                        &&& a.ident == fields[j].ident
                        &&& a.name@ == cli_name(fields[j])
                        &&& a.positional == fields[j].arg_attrs.positional
                        &&& a.short == if fields[j].arg_attrs.positional {
                            None
                        } else {
                            fields[j].arg_attrs.short
                        }
                        &&& a.action == cli_action(fields[j])
                    },
                    None => !on_cli(fields[j]),
                },
        decreases fields.len() - i,
    {
        if fields[i].is_on_cli() {
            match fields[i].cli_argument() {
                Ok(a) => {
                    out.push(Some(a));
                },
                Err(kind) => {
                    assert forall|j: int| 0 <= j < i && on_cli(#[trigger] fields[j]) implies
                        cli_default(fields[j]) is Ok by {
                        assert(out[j] is Some);
                    }
                    return Err(SchemaError { field: i, attribute: 0, kind });
                },
            }
        } else {
            out.push(None);
        }
        i += 1;
    }
    Ok(out)
}

/// Builds the schema of a declaration.
///
/// A declaration that is no structure with named fields is an error. So
/// is, of the fields in their order, the first whose attributes are wrong
/// and, where the attributes of all are right, the first that cannot have
/// a schema: a positional field that is not of the command line alone, or
/// a boolean flag whose default spells no boolean. Every field of a schema
/// that is built is valid.
pub fn build_schema(decl: &StructDecl) -> (r: Result<Schema, SchemaError>)
    ensures
        match r {
            Ok(schema) => {
                &&& decl.fields matches Some(fields)
                &&& crate::parse_attrs::first_bad_field(fields@, 0) == fields.len()
                &&& first_bad_schema(fields@, 0) == fields.len()
                &&& schema.fields.len() == fields.len()
                &&& forall|i: int|
                    0 <= i < fields.len() ==> field_schema(#[trigger] fields[i]) == Ok::<
                        FieldModel,
                        (int, SchemaErrorKind),
                    >(schema.fields[i]@) && valid_field(schema.fields[i]@)
                &&& schema.config.base_name@ == crate::parse_attrs::struct_base_name(decl.attrs@)
                &&& schema.config.formats.deep_view() == crate::parse_attrs::struct_formats(
                    decl.attrs@,
                )
            },
            Err(e) => match decl.fields {
                None => e == (SchemaError {
                    field: 0,
                    attribute: 0,
                    kind: SchemaErrorKind::NotNamedStruct,
                }),
                Some(fields) => is_fields_error(fields@, e),
            },
        },
{
    let config = parse_struct_level_attrs(&decl.attrs);
    let fields = match &decl.fields {
        Some(fields) => fields,
        None => {
            return Err(
                SchemaError { field: 0, attribute: 0, kind: SchemaErrorKind::NotNamedStruct },
            );
        },
    };
    let infos = match parse_fields(fields) {
        Ok(infos) => infos,
        Err(e) => {
            return Err(e);
        },
    };
    let mut out: Vec<FieldSchema> = Vec::new();
    let mut i: usize = 0;
    while i < infos.len()
        invariant
            0 <= i <= infos.len(),
            infos.len() == fields.len(),
            out.len() == i,
            decl.fields == Some(*fields),
            crate::parse_attrs::first_bad_field(fields@, 0) == fields.len(),
            forall|j: int|
                0 <= j < fields.len() ==> parsed_field(#[trigger] fields[j]) == Ok::<
                    FieldInfo,
                    (int, SchemaErrorKind),
                >(infos[j]),
            first_bad_schema(fields@, 0) == first_bad_schema(fields@, i as int),
            forall|j: int|
                0 <= j < i ==> field_schema(#[trigger] fields[j]) == Ok::<
                    FieldModel,
                    (int, SchemaErrorKind),
                >(out[j]@) && valid_field(out[j]@),
        decreases infos.len() - i,
    {
        match infos[i].to_schema() {
            Ok(f) => {
                out.push(f);
            },
            Err(kind) => {
                return Err(SchemaError { field: i, attribute: 0, kind });
            },
        }
        i += 1;
    }
    Ok(Schema { config, fields: out })
}

} // verus!
