//! Reading the declarations of a configuration structure: what is written
//! above the structure and above each of its fields.
//!
//! The declarations arrive as plain values: names, literals and the items
//! between the parentheses of an attribute, in the order in which they were
//! written.

use crate::text::{split_trimmed, split_trimmed_model, text_eq};
use vstd::prelude::*;

verus! {

/// Where the value of a field may come from.
#[derive(Debug, Clone, Copy, PartialEq, Eq, Structural)]
pub enum FieldAvailability {
    Internal,
    CliOnly,
    ConfigOnly,
    CliAndConfig,
}

impl Default for FieldAvailability {
    fn default() -> (r: Self)
        ensures
            r == FieldAvailability::Internal,
    {
        FieldAvailability::Internal
    }
}

/// How a list given on the command line combines with the list of the
/// configuration document.
#[derive(Debug, Clone, Copy, PartialEq, Eq, Structural)]
pub enum MultiValueBehavior {
    Extend,
    Overwrite,
}

impl Default for MultiValueBehavior {
    fn default() -> (r: Self)
        ensures
            r == MultiValueBehavior::Extend,
    {
        MultiValueBehavior::Extend
    }
}

/// What is declared for the whole structure: the base name of its
/// configuration file and the format tags it accepts.
#[derive(Debug, Clone, PartialEq, Eq)]
pub struct MacroConfig {
    pub base_name: String,
    pub formats: Vec<String>,
}

impl Default for MacroConfig {
    fn default() -> (r: Self)
        ensures
            r.base_name@.len() == 0,
            r.formats@.len() == 0,
    {
        MacroConfig { base_name: String::new(), formats: Vec::new() }
    }
}

/// What is declared for one field.
#[derive(Debug, Clone, PartialEq, Eq)]
pub struct ArgAttributes {
    pub name: Option<String>,
    pub short: Option<char>,
    pub default_value: Option<String>,
    pub positional: bool,
    pub availability: FieldAvailability,
    pub multi_value_behavior: MultiValueBehavior,
}

impl Default for ArgAttributes {
    fn default() -> (r: Self)
        ensures
            r == initial_attributes(),
    {
        ArgAttributes {
            name: None,
            short: None,
            default_value: None,
            positional: false,
            availability: FieldAvailability::Internal,
            multi_value_behavior: MultiValueBehavior::Extend,
        }
    }
}

/// A literal on the right of an equals sign.
#[derive(Debug, PartialEq, Eq)]
pub enum Literal {
    Str(String),
    Char(char),
    /// Any other expression.
    Other,
}

/// One item between the parentheses of a `config_arg` attribute.
#[derive(Debug, PartialEq, Eq)]
pub enum ArgItem {
    /// `key = value`; the key is `None` where it is not one identifier.
    NameValue { key: Option<String>, value: Literal },
    /// A bare word; `None` where it is a longer path.
    Word(Option<String>),
    /// A nested list.
    Other,
}

/// The form of an attribute.
#[derive(Debug, PartialEq, Eq)]
pub enum AttributeShape {
    /// The name alone.
    Word,
    /// `name = value`.
    NameValue(Literal),
    /// `name(items)`: the items, or the message of the syntax error in them.
    List(Result<Vec<ArgItem>, String>),
}

/// An attribute: its name, where that is one identifier, and its form.
#[derive(Debug, PartialEq, Eq)]
pub struct AttributeDecl {
    pub name: Option<String>,
    pub shape: AttributeShape,
}

/// What is read of the type of a field: the last segment of its path,
/// where the type is a path.
#[derive(Debug, Clone, PartialEq, Eq)]
pub struct TypeDecl {
    pub last_segment: Option<String>,
}

/// A field as it is declared.
#[derive(Debug, PartialEq, Eq)]
pub struct FieldDecl {
    pub ident: Option<String>,
    pub attrs: Vec<AttributeDecl>,
    pub ty: TypeDecl,
}

/// A field and what its attributes say of it.
#[derive(Debug, Clone, PartialEq, Eq)]
pub struct FieldInfo {
    pub ident: String,
    pub ty: TypeDecl,
    pub arg_attrs: ArgAttributes,
}

/// What is wrong with a declaration.
#[derive(Debug, PartialEq, Eq)]
pub enum SchemaErrorKind {
    /// The field has no name.
    UnnamedField,
    /// `config_arg` is not followed by a list in parentheses.
    ExpectedList,
    /// The list of `config_arg` does not parse; the text is the message.
    Syntax(String),
    /// A positional field, which is of the command line alone, with an
    /// `accept_from`: one after `positional`, or one before it that gives
    /// the field to the configuration.
    PositionalAcceptFrom,
    /// `accept_from` names no availability; the text is what it names.
    InvalidAcceptFrom(String),
    /// `multi_value_behavior` names no behavior; the text is what it names.
    InvalidMultiValueBehavior(String),
    /// A bare word other than `positional`.
    UnknownFlag(String),
    /// The default of a boolean field is neither `true` nor `false`.
    InvalidBoolDefault(String),
    /// The declaration is no structure with named fields.
    NotNamedStruct,
}

/// An error and where it lies: the index of the field and, in the field,
/// of the attribute.
#[derive(Debug, PartialEq, Eq)]
pub struct SchemaError {
    pub field: usize,
    pub attribute: usize,
    pub kind: SchemaErrorKind,
}

/// What an error says to the author of the declaration.
pub open spec fn message_model(kind: SchemaErrorKind) -> Seq<char> {
    match kind {
        SchemaErrorKind::UnnamedField => "Unnamed field not supported by ClapConfigFile"@,
        SchemaErrorKind::ExpectedList =>
            "expected attribute arguments in parentheses: #[config_arg(...)]"@,
        SchemaErrorKind::Syntax(message) => message@,
        SchemaErrorKind::PositionalAcceptFrom =>
            "Positional arguments must be CLI-only. Remove accept_from attribute."@,
        SchemaErrorKind::InvalidAcceptFrom(value) => "Invalid accept_from: "@ + value@,
        SchemaErrorKind::InvalidMultiValueBehavior(value) => "Invalid multi_value_behavior: "@
            + value@,
        SchemaErrorKind::UnknownFlag(word) => "Unknown config_arg flag: "@ + word@,
        SchemaErrorKind::InvalidBoolDefault(value) =>
            "For bool field, default_value must be \"true\" or \"false\", got "@ + value@,
        SchemaErrorKind::NotNamedStruct =>
            "ClapConfigFile only supports a struct with named fields."@,
    }
}

impl SchemaErrorKind {
    /// What the error says to the author of the declaration.
    pub fn message(&self) -> (r: String)
        ensures
            r@ == message_model(*self),
    {
        match self {
            SchemaErrorKind::UnnamedField => "Unnamed field not supported by ClapConfigFile"
                .to_owned(),
            SchemaErrorKind::ExpectedList =>
                "expected attribute arguments in parentheses: #[config_arg(...)]".to_owned(),
            SchemaErrorKind::Syntax(message) => message.clone(),
            SchemaErrorKind::PositionalAcceptFrom =>
                "Positional arguments must be CLI-only. Remove accept_from attribute.".to_owned(),
            SchemaErrorKind::InvalidAcceptFrom(value) => "Invalid accept_from: ".to_owned().concat(
                value.as_str(),
            ),
            SchemaErrorKind::InvalidMultiValueBehavior(value) => "Invalid multi_value_behavior: "
                .to_owned().concat(value.as_str()),
            SchemaErrorKind::UnknownFlag(word) => "Unknown config_arg flag: ".to_owned().concat(
                word.as_str(),
            ),
            SchemaErrorKind::InvalidBoolDefault(value) =>
                "For bool field, default_value must be \"true\" or \"false\", got ".to_owned()
                    .concat(value.as_str()),
            SchemaErrorKind::NotNamedStruct =>
                "ClapConfigFile only supports a struct with named fields.".to_owned(),
        }
    }
}

/// The attributes of a field of which nothing was declared yet.
pub open spec fn initial_attributes() -> ArgAttributes {
    ArgAttributes {
        name: None,
        short: None,
        default_value: None,
        positional: false,
        availability: FieldAvailability::Internal,
        multi_value_behavior: MultiValueBehavior::Extend,
    }
}

/// The availability that `accept_from` names.
pub open spec fn availability_named(name: Seq<char>) -> Option<FieldAvailability> {
    if name == "cli_only"@ {
        Some(FieldAvailability::CliOnly)
    } else if name == "config_only"@ {
        Some(FieldAvailability::ConfigOnly)
    } else if name == "cli_and_config"@ {
        Some(FieldAvailability::CliAndConfig)
    } else {
        None
    }
}

/// The behavior that `multi_value_behavior` names.
pub open spec fn behavior_named(name: Seq<char>) -> Option<MultiValueBehavior> {
    if name == "extend"@ {
        Some(MultiValueBehavior::Extend)
    } else if name == "overwrite"@ {
        Some(MultiValueBehavior::Overwrite)
    } else {
        None
    }
}

/// What `key = value` does to the attributes. A key that is not known, or
/// a value of another kind than the key takes, changes nothing.
pub open spec fn applied_pair(state: ArgAttributes, key: Seq<char>, value: Literal) -> Result<
    ArgAttributes,
    SchemaErrorKind,
> {
    if key == "name"@ && value is Str {
        Ok(ArgAttributes { name: Some(value->Str_0), ..state })
    } else if key == "short"@ && value is Char {
        Ok(ArgAttributes { short: Some(value->Char_0), ..state })
    } else if key == "default_value"@ && value is Str {
        Ok(ArgAttributes { default_value: Some(value->Str_0), ..state })
    } else if key == "accept_from"@ && value is Str {
        if state.positional {
            Err(SchemaErrorKind::PositionalAcceptFrom)
        } else {
            match availability_named(value->Str_0@) {
                Some(availability) => Ok(ArgAttributes { availability, ..state }),
                None => Err(SchemaErrorKind::InvalidAcceptFrom(value->Str_0)),
            }
        }
    } else if key == "multi_value_behavior"@ && value is Str {
        match behavior_named(value->Str_0@) {
            Some(multi_value_behavior) => Ok(ArgAttributes { multi_value_behavior, ..state }),
            None => Err(SchemaErrorKind::InvalidMultiValueBehavior(value->Str_0)),
        }
    } else {
        Ok(state)
    }
}

/// Whether an `accept_from` before this point gave the field to the
/// configuration: alone or together with the command line.
pub open spec fn given_to_config(state: ArgAttributes) -> bool {
    state.availability == FieldAvailability::ConfigOnly || state.availability
        == FieldAvailability::CliAndConfig
}

/// What one item does to the attributes. The word `positional` makes the
/// field positional and a field of the command line alone; it is an error
/// where an `accept_from` before it gave the field to the configuration.
/// Any other word is an error.
pub open spec fn applied_item(state: ArgAttributes, item: ArgItem) -> Result<
    ArgAttributes,
    SchemaErrorKind,
> {
    match item {
        ArgItem::NameValue { key: Some(key), value } => applied_pair(state, key@, value),
        ArgItem::NameValue { key: None, value } => Ok(state),
        ArgItem::Word(Some(word)) => if word@ == "positional"@ {
            if given_to_config(state) {
                Err(SchemaErrorKind::PositionalAcceptFrom)
            } else {
                Ok(
                    ArgAttributes {
                        positional: true,
                        availability: FieldAvailability::CliOnly,
                        ..state
                    },
                )
            }
        } else {
            Err(SchemaErrorKind::UnknownFlag(word))
        },
        ArgItem::Word(None) => Ok(state),
        ArgItem::Other => Ok(state),
    }
}

/// The items from `from` on, applied in their order; the first error ends
/// it.
pub open spec fn applied_items(state: ArgAttributes, items: Seq<ArgItem>, from: int) -> Result<
    ArgAttributes,
    SchemaErrorKind,
>
    decreases items.len() - from,
{
    if from < 0 || from >= items.len() {
        Ok(state)
    } else {
        match applied_item(state, items[from]) {
            Ok(next) => applied_items(next, items, from + 1),
            Err(e) => Err(e),
        }
    }
}

/// Whether an attribute is a `config_arg`.
pub open spec fn is_config_arg(attr: AttributeDecl) -> bool {
    attr.name matches Some(n) && n@ == "config_arg"@
}

/// What a `config_arg` attribute does to the attributes of its field.
pub open spec fn applied_attribute(state: ArgAttributes, attr: AttributeDecl) -> Result<
    ArgAttributes,
    SchemaErrorKind,
> {
    match attr.shape {
        AttributeShape::List(Ok(items)) => applied_items(state, items@, 0),
        AttributeShape::List(Err(message)) => Err(SchemaErrorKind::Syntax(message)),
        _ => Err(SchemaErrorKind::ExpectedList),
    }
}

/// The attributes of a field from `from` on: the state after them and
/// whether a `config_arg` was among them so far, or the index of the
/// attribute that is in error and the error.
pub open spec fn applied_attributes(
    state: ArgAttributes,
    seen: bool,
    attrs: Seq<AttributeDecl>,
    from: int,
) -> Result<(ArgAttributes, bool), (int, SchemaErrorKind)>
    decreases attrs.len() - from,
{
    if from < 0 || from >= attrs.len() {
        Ok((state, seen))
    } else if is_config_arg(attrs[from]) {
        match applied_attribute(state, attrs[from]) {
            Ok(next) => applied_attributes(next, true, attrs, from + 1),
            Err(e) => Err((from, e)),
        }
    } else {
        applied_attributes(state, seen, attrs, from + 1)
    }
}

/// The availability of a field once all its attributes are read: a field
/// without `config_arg` is internal, a field with one that names no
/// availability is a field of both sources.
pub open spec fn settled(state: ArgAttributes, seen: bool) -> ArgAttributes {
    ArgAttributes {
        availability: if !seen {
            FieldAvailability::Internal
        } else if state.availability == FieldAvailability::Internal {
            FieldAvailability::CliAndConfig
        } else {
            state.availability
        },
        ..state
    }
}

/// What the declaration of one field gives.
pub open spec fn parsed_field(decl: FieldDecl) -> Result<FieldInfo, (int, SchemaErrorKind)> {
    match decl.ident {
        None => Err((0, SchemaErrorKind::UnnamedField)),
        Some(ident) => match applied_attributes(initial_attributes(), false, decl.attrs@, 0) {
            Ok((state, seen)) => Ok(
                FieldInfo { ident, ty: decl.ty, arg_attrs: settled(state, seen) },
            ),
            Err(e) => Err(e),
        },
    }
}

/// The index of the first field from `from` on whose declaration is in
/// error, or the number of fields.
pub open spec fn first_bad_field(fields: Seq<FieldDecl>, from: int) -> int
    decreases fields.len() - from,
{
    if from < 0 || from >= fields.len() {
        fields.len() as int
    } else if parsed_field(fields[from]) is Err {
        from
    } else {
        first_bad_field(fields, from + 1)
    }
}

/// The base name that the attributes from `from` on leave: the string of
/// the last `config_file_name = "..."` among them, or `current`.
pub open spec fn declared_name(attrs: Seq<AttributeDecl>, from: int, current: Seq<char>) -> Seq<
    char,
>
    decreases attrs.len() - from,
{
    if from < 0 || from >= attrs.len() {
        current
    } else {
        declared_name(
            attrs,
            from + 1,
            match (attrs[from].name, attrs[from].shape) {
                (Some(n), AttributeShape::NameValue(Literal::Str(s))) => if n@
                    == "config_file_name"@ {
                    s@
                } else {
                    current
                },
                _ => current,
            },
        )
    }
}

/// The format tags that the attributes from `from` on leave: those of the
/// last `config_file_formats = "..."` among them, split at the commas and
/// trimmed, or `current`.
pub open spec fn declared_formats(
    attrs: Seq<AttributeDecl>,
    from: int,
    current: Seq<Seq<char>>,
) -> Seq<Seq<char>>
    decreases attrs.len() - from,
{
    if from < 0 || from >= attrs.len() {
        current
    } else {
        declared_formats(
            attrs,
            from + 1,
            match (attrs[from].name, attrs[from].shape) {
                (Some(n), AttributeShape::NameValue(Literal::Str(s))) => if n@
                    == "config_file_formats"@ {
                    split_trimmed_model(s@)
                } else {
                    current
                },
                _ => current,
            },
        )
    }
}

/// The base name of the configuration file: the declared one, or `config`
/// where none, or an empty one, is declared.
pub open spec fn struct_base_name(attrs: Seq<AttributeDecl>) -> Seq<char> {
    let declared = declared_name(attrs, 0, Seq::empty());
    if declared.len() == 0 {
        "config"@
    } else {
        declared
    }
}

/// The format tags of the configuration file: the declared ones, or
/// `yaml` alone where none are declared.
pub open spec fn struct_formats(attrs: Seq<AttributeDecl>) -> Seq<Seq<char>> {
    let declared = declared_formats(attrs, 0, Seq::empty());
    if declared.len() == 0 {
        seq!["yaml"@]
    } else {
        declared
    }
}

/// A positional field is a field of the command line alone.
pub open spec fn positional_is_cli_only(state: ArgAttributes) -> bool {
    state.positional ==> state.availability == FieldAvailability::CliOnly
}

/// The items of an attribute keep a positional field on the command line.
proof fn lemma_items_keep_positional(state: ArgAttributes, items: Seq<ArgItem>, from: int)
    requires
        positional_is_cli_only(state),
    ensures
        applied_items(state, items, from) matches Ok(after) ==> positional_is_cli_only(after) && (
        state.positional ==> after.positional),
    decreases items.len() - from,
{
    if 0 <= from < items.len() {
        if let Ok(next) = applied_item(state, items[from]) {
            lemma_items_keep_positional(next, items, from + 1);
        }
    }
}

/// The attributes of a field keep a positional field on the command line,
/// and a field is positional only through a `config_arg`.
proof fn lemma_attributes_keep_positional(
    state: ArgAttributes,
    seen: bool,
    attrs: Seq<AttributeDecl>,
    from: int,
)
    requires
        positional_is_cli_only(state),
        state.positional ==> seen,
    ensures
        applied_attributes(state, seen, attrs, from) matches Ok((after, seen_after))
            ==> positional_is_cli_only(after) && (after.positional ==> seen_after),
    decreases attrs.len() - from,
{
    if 0 <= from < attrs.len() {
        if is_config_arg(attrs[from]) {
            if let AttributeShape::List(Ok(items)) = attrs[from].shape {
                lemma_items_keep_positional(state, items@, 0);
            }
            if let Ok(next) = applied_attribute(state, attrs[from]) {
                lemma_attributes_keep_positional(next, true, attrs, from + 1);
            }
        } else {
            lemma_attributes_keep_positional(state, seen, attrs, from + 1);
        }
    }
}

/// Whatever is declared for a field, once its declaration is accepted a
/// positional field is a field of the command line alone, and a field
/// without `config_arg` is internal.
pub proof fn lemma_parsed_field_valid(decl: FieldDecl)
    ensures
        parsed_field(decl) matches Ok(info) ==> positional_is_cli_only(info.arg_attrs),
        parsed_field(decl) matches Ok(info) ==> ((forall|i: int|
            0 <= i < decl.attrs.len() ==> !is_config_arg(#[trigger] decl.attrs[i]))
            ==> info.arg_attrs.availability == FieldAvailability::Internal),
{
    lemma_attributes_keep_positional(initial_attributes(), false, decl.attrs@, 0);
    if forall|i: int| 0 <= i < decl.attrs.len() ==> !is_config_arg(#[trigger] decl.attrs[i]) {
        lemma_unseen(initial_attributes(), decl.attrs@, 0);
    }
}

/// Attributes of other names leave the field as it is.
proof fn lemma_unseen(state: ArgAttributes, attrs: Seq<AttributeDecl>, from: int)
    requires
        forall|i: int| 0 <= i < attrs.len() ==> !is_config_arg(#[trigger] attrs[i]),
    ensures
        applied_attributes(state, false, attrs, from) == Ok::<
            (ArgAttributes, bool),
            (int, SchemaErrorKind),
        >((state, false)),
    decreases attrs.len() - from,
{
    if 0 <= from < attrs.len() {
        lemma_unseen(state, attrs, from + 1);
    }
}

/// A field that is declared positional and, by `accept_from`, given to
/// the configuration is rejected, whichever of the two is written first.
pub proof fn lemma_positional_config_rejected(
    state: ArgAttributes,
    key: String,
    value: String,
    word: String,
)
    requires
        key@ == "accept_from"@,
        word@ == "positional"@,
        availability_named(value@) == Some(FieldAvailability::ConfigOnly) || availability_named(
            value@,
        ) == Some(FieldAvailability::CliAndConfig),
    ensures
        applied_items(
            state,
            seq![
                ArgItem::NameValue { key: Some(key), value: Literal::Str(value) },
                ArgItem::Word(Some(word)),
            ],
            0,
        ) is Err,
        applied_items(
            state,
            seq![
                ArgItem::Word(Some(word)),
                ArgItem::NameValue { key: Some(key), value: Literal::Str(value) },
            ],
            0,
        ) is Err,
{
    reveal_strlit("accept_from");
    reveal_strlit("name");
    reveal_strlit("short");
    reveal_strlit("default_value");
    reveal_with_fuel(applied_items, 3);
    assert("accept_from"@ != "name"@) by {
        assert("accept_from"@[0] != "name"@[0]);
    }
    assert("accept_from"@ != "short"@) by {
        assert("accept_from"@[0] != "short"@[0]);
    }
    assert("accept_from"@ != "default_value"@) by {
        assert("accept_from"@[0] != "default_value"@[0]);
    }
}

impl FieldInfo {
    /// Whether the last segment of the field's type is `name`.
    pub open spec fn type_named(&self, name: Seq<char>) -> bool {
        self.ty.last_segment matches Some(s) && s@ == name
    }

    /// Whether the field is a `bool`.
    pub fn is_bool_type(&self) -> (r: bool)
        ensures
            r == self.type_named("bool"@),
    {
        match &self.ty.last_segment {
            Some(s) => text_eq(s.as_str(), "bool"),
            None => false,
        }
    }

    /// Whether the field is a `Vec`.
    pub fn is_vec_type(&self) -> (r: bool)
        ensures
            r == self.type_named("Vec"@),
    {
        match &self.ty.last_segment {
            Some(s) => text_eq(s.as_str(), "Vec"),
            None => false,
        }
    }
}

/// Reads what is declared above the structure.
///
/// `config_file_name = "..."` gives the base name and
/// `config_file_formats = "a, b"` the format tags; of several the last
/// counts, and attributes of another name or form are passed over. Without
/// a base name it is `config`, without tags the one tag `yaml`.
pub fn parse_struct_level_attrs(attrs: &Vec<AttributeDecl>) -> (r: MacroConfig)
    ensures
        r.base_name@ == struct_base_name(attrs@),
        r.formats.deep_view() == struct_formats(attrs@),
{
    let mut base_name = String::new();
    let mut formats: Vec<String> = Vec::new();
    assert(formats.deep_view() =~= Seq::<Seq<char>>::empty());
    let mut i: usize = 0;
    while i < attrs.len()
        invariant
            0 <= i <= attrs.len(),
            declared_name(attrs@, 0, Seq::empty()) == declared_name(attrs@, i as int, base_name@),
            declared_formats(attrs@, 0, Seq::empty()) == declared_formats(
                attrs@,
                i as int,
                formats.deep_view(),
            ),
        decreases attrs.len() - i,
    {
        match (&attrs[i].name, &attrs[i].shape) {
            (Some(n), AttributeShape::NameValue(Literal::Str(s))) => {
                if text_eq(n.as_str(), "config_file_name") {
                    base_name = s.clone();
                }
                if text_eq(n.as_str(), "config_file_formats") {
                    formats = split_trimmed(s.as_str());
                }
            },
            _ => {},
        }
        i += 1;
    }
    if base_name.as_str().is_empty() {
        base_name = "config".to_owned();
    }
    if formats.len() == 0 {
        formats.push("yaml".to_owned());
    }
    MacroConfig { base_name, formats }
}

/// Applies `key = value` to the attributes of a field.
fn apply_pair(state: ArgAttributes, key: &str, value: &Literal) -> (r: Result<
    ArgAttributes,
    SchemaErrorKind,
>)
    ensures
        r == applied_pair(state, key@, *value),
{
    let mut state = state;
    if text_eq(key, "name") {
        if let Literal::Str(v) = value {
            state.name = Some(v.clone());
            return Ok(state);
        }
    }
    if text_eq(key, "short") {
        if let Literal::Char(c) = value {
            state.short = Some(*c);
            return Ok(state);
        }
    }
    if text_eq(key, "default_value") {
        if let Literal::Str(v) = value {
            state.default_value = Some(v.clone());
            return Ok(state);
        }
    }
    if text_eq(key, "accept_from") {
        if let Literal::Str(v) = value {
            if state.positional {
                return Err(SchemaErrorKind::PositionalAcceptFrom);
            }
            if text_eq(v.as_str(), "cli_only") {
                state.availability = FieldAvailability::CliOnly;
            } else if text_eq(v.as_str(), "config_only") {
                state.availability = FieldAvailability::ConfigOnly;
            } else if text_eq(v.as_str(), "cli_and_config") {
                state.availability = FieldAvailability::CliAndConfig;
            } else {
                return Err(SchemaErrorKind::InvalidAcceptFrom(v.clone()));
            }
            return Ok(state);
        }
    }
    if text_eq(key, "multi_value_behavior") {
        if let Literal::Str(v) = value {
            if text_eq(v.as_str(), "extend") {
                state.multi_value_behavior = MultiValueBehavior::Extend;
            } else if text_eq(v.as_str(), "overwrite") {
                state.multi_value_behavior = MultiValueBehavior::Overwrite;
            } else {
                return Err(SchemaErrorKind::InvalidMultiValueBehavior(v.clone()));
            }
            return Ok(state);
        }
    }
    Ok(state)
}

/// Applies one item of a `config_arg` attribute.
fn apply_item(state: ArgAttributes, item: &ArgItem) -> (r: Result<ArgAttributes, SchemaErrorKind>)
    ensures
        r == applied_item(state, *item),
{
    let mut state = state;
    match item {
        ArgItem::NameValue { key: Some(key), value } => apply_pair(state, key.as_str(), value),
        ArgItem::NameValue { key: None, value } => Ok(state),
        ArgItem::Word(Some(word)) => {
            if text_eq(word.as_str(), "positional") {
                match state.availability {
                    FieldAvailability::ConfigOnly => Err(SchemaErrorKind::PositionalAcceptFrom),
                    FieldAvailability::CliAndConfig => Err(SchemaErrorKind::PositionalAcceptFrom),
                    _ => {
                        state.positional = true;
                        state.availability = FieldAvailability::CliOnly;
                        Ok(state)
                    },
                }
            } else {
                Err(SchemaErrorKind::UnknownFlag(word.clone()))
            }
        },
        ArgItem::Word(None) => Ok(state),
        ArgItem::Other => Ok(state),
    }
}

/// Applies a `config_arg` attribute.
fn apply_attribute(state: ArgAttributes, attr: &AttributeDecl) -> (r: Result<
    ArgAttributes,
    SchemaErrorKind,
>)
    ensures
        r == applied_attribute(state, *attr),
{
    match &attr.shape {
        AttributeShape::List(Ok(items)) => {
            let mut current = state;
            let mut i: usize = 0;
            while i < items.len()
                invariant
                    0 <= i <= items.len(),
                    attr.shape == AttributeShape::List(Ok::<Vec<ArgItem>, String>(*items)),
                    applied_attribute(state, *attr) == applied_items(current, items@, i as int),
                decreases items.len() - i,
            {
                match apply_item(current, &items[i]) {
                    Ok(next) => {
                        current = next;
                    },
                    Err(e) => {
                        return Err(e);
                    },
                }
                i += 1;
            }
            Ok(current)
        },
        AttributeShape::List(Err(message)) => Err(SchemaErrorKind::Syntax(message.clone())),
        _ => Err(SchemaErrorKind::ExpectedList),
    }
}

/// Reads the declaration of one field: the error comes with the index of
/// the attribute that it lies in.
pub fn parse_field(decl: &FieldDecl) -> (r: Result<FieldInfo, (usize, SchemaErrorKind)>)
    ensures
        match r {
            Ok(info) => parsed_field(*decl) == Ok::<FieldInfo, (int, SchemaErrorKind)>(info),
            Err((at, kind)) => parsed_field(*decl) == Err::<FieldInfo, (int, SchemaErrorKind)>(
                (at as int, kind),
            ),
        },
{
    let ident = match &decl.ident {
        Some(ident) => ident.clone(),
        None => {
            return Err((0, SchemaErrorKind::UnnamedField));
        },
    };
    let mut state = ArgAttributes::default();
    let mut seen = false;
    let mut i: usize = 0;
    while i < decl.attrs.len()
        invariant
            0 <= i <= decl.attrs.len(),
            decl.ident == Some(ident),
            applied_attributes(initial_attributes(), false, decl.attrs@, 0) == applied_attributes(
                state,
                seen,
                decl.attrs@,
                i as int,
            ),
        decreases decl.attrs.len() - i,
    {
        let is_ours = match &decl.attrs[i].name {
            Some(n) => text_eq(n.as_str(), "config_arg"),
            None => false,
        };
        if is_ours {
            match apply_attribute(state, &decl.attrs[i]) {
                Ok(next) => {
                    state = next;
                    seen = true;
                },
                Err(e) => {
                    return Err((i, e));
                },
            }
        }
        i += 1;
    }
    if !seen {
        state.availability = FieldAvailability::Internal;
    } else if state.availability == FieldAvailability::Internal {
        state.availability = FieldAvailability::CliAndConfig;
    }
    let last_segment = match &decl.ty.last_segment {
        Some(s) => Some(s.clone()),
        None => None,
    };
    Ok(FieldInfo { ident, ty: TypeDecl { last_segment }, arg_attrs: state })
}

/// Reads the declarations of the fields, in their order.
///
/// The result holds one entry for each field, or the error of the first
/// field whose declaration is wrong:
/// - a field without a name;
/// - a `config_arg` that is no list, or whose list does not parse;
/// - a field that is positional and is given to the configuration:
///   `positional` after an `accept_from` that names `config_only` or
///   `cli_and_config`, and any `accept_from` after `positional`;
/// - `accept_from` with a value other than `cli_only`, `config_only` and
///   `cli_and_config`;
/// - `multi_value_behavior` with a value other than `extend` and
///   `overwrite`;
/// - a bare word other than `positional`.
pub fn parse_fields(fields: &Vec<FieldDecl>) -> (r: Result<Vec<FieldInfo>, SchemaError>)
    ensures
        match r {
            Ok(infos) => {
                &&& first_bad_field(fields@, 0) == fields.len()
                &&& infos.len() == fields.len()
                &&& forall|i: int|
                    0 <= i < fields.len() ==> parsed_field(#[trigger] fields[i]) == Ok::<
                        FieldInfo,
                        (int, SchemaErrorKind),
                    >(infos[i])
            },
            Err(e) => {
                &&& e.field == first_bad_field(fields@, 0)
                &&& e.field < fields.len()
                &&& parsed_field(fields[e.field as int]) == Err::<
                    FieldInfo,
                    (int, SchemaErrorKind),
                >((e.attribute as int, e.kind))
            },
        },
{
    let mut out: Vec<FieldInfo> = Vec::new();
    let mut i: usize = 0;
    while i < fields.len()
        invariant
            0 <= i <= fields.len(),
            out.len() == i,
            first_bad_field(fields@, 0) == first_bad_field(fields@, i as int),
            forall|j: int|
                0 <= j < i ==> parsed_field(#[trigger] fields[j]) == Ok::<
                    FieldInfo,
                    (int, SchemaErrorKind),
                >(out[j]),
        decreases fields.len() - i,
    {
        match parse_field(&fields[i]) {
            Ok(info) => {
                out.push(info);
            },
            Err((attribute, kind)) => {
                return Err(SchemaError { field: i, attribute, kind });
            },
        }
        i += 1;
    }
    Ok(out)
}

} // verus!
