//! Turning the text of a configuration source into a structured value.
//!
//! A named file is decoded in the format that its extension stands for,
//! YAML where the extension says nothing. An inline text has no extension:
//! it is tried as JSON, then as YAML, then as TOML, and the first format
//! that accepts it wins.

use crate::format::{format_of, matched_tag, Format};
use crate::value::{well_formed, StructuredValue, ValueModel};
use vstd::prelude::*;

verus! {

/// `config::Value`, declared so that a value of it can pass through
/// verified code. Nothing inside it is visible there: [`content`] names
/// what it holds.
#[verifier::external_type_specification]
#[verifier::external_body]
pub struct ExConfigValue(config::Value);

/// A decoded document and the format it was decoded in.
#[derive(Debug, PartialEq, Eq)]
pub struct Loaded {
    pub format: Format,
    pub value: StructuredValue,
}

/// Why a source gave no document. Every one of these is recoverable: the
/// resolution goes on as if the source were absent.
#[derive(Debug, PartialEq, Eq)]
pub enum SourceError {
    /// The file could not be read; the text is the reader's message.
    Read(String),
    /// The text of the file is not a document of the format.
    Parse { format: Format, message: String },
    /// The inline text is a document of none of the formats; the messages
    /// are those of the parsers, in the order in which they were tried.
    Unrecognized { messages: Vec<String> },
}

/// The model of a [`SourceError`].
pub enum SourceErrorModel {
    Read(Seq<char>),
    Parse { format: Format, message: Seq<char> },
    Unrecognized { messages: Seq<Seq<char>> },
}

impl View for SourceError {
    type V = SourceErrorModel;

    open spec fn view(&self) -> SourceErrorModel {
        match self {
            SourceError::Read(m) => SourceErrorModel::Read(m@),
            SourceError::Parse { format, message } => SourceErrorModel::Parse {
                format: *format,
                message: message@,
            },
            SourceError::Unrecognized { messages } => SourceErrorModel::Unrecognized {
                messages: messages.deep_view(),
            },
        }
    }
}

/// What a failure says to the user: the reader's or the parser's message
/// behind a few words on what failed; for an inline text the message of
/// the parser that was tried last.
pub open spec fn diagnostic_model(e: SourceErrorModel) -> Seq<char> {
    match e {
        SourceErrorModel::Read(m) => "Failed to read config file: "@ + m,
        SourceErrorModel::Parse { format, message } => "Failed to build config: "@ + message,
        SourceErrorModel::Unrecognized { messages } => if messages.len() > 0 {
            "Failed to parse raw config: "@ + messages.last()
        } else {
            "Failed to parse raw config: "@
        },
    }
}

impl SourceError {
    /// What the failure says to the user.
    pub fn message(&self) -> (r: String)
        ensures
            r@ == diagnostic_model(self@),
    {
        match self {
            SourceError::Read(m) => "Failed to read config file: ".to_owned().concat(m.as_str()),
            SourceError::Parse { format, message } => "Failed to build config: ".to_owned().concat(
                message.as_str(),
            ),
            SourceError::Unrecognized { messages } => {
                let head = "Failed to parse raw config: ".to_owned();
                if messages.len() > 0 {
                    head.concat(messages[messages.len() - 1].as_str())
                } else {
                    head
                }
            },
        }
    }
}

/// What the parser of `format` makes of `text`: the root table of the
/// document, or the parser's message when it rejects the text.
pub uninterp spec fn decoded(format: Format, text: Seq<char>) -> Result<ValueModel, Seq<char>>;

/// The model of the outcome of decoding.
pub open spec fn outcome_view(r: Result<StructuredValue, String>) -> Result<
    ValueModel,
    Seq<char>,
> {
    match r {
        Ok(v) => Ok(v@),
        Err(e) => Err(e@),
    }
}

/// The model of the outcome of loading.
pub open spec fn loaded_view(r: Result<Loaded, SourceError>) -> Result<
    (Format, ValueModel),
    SourceErrorModel,
> {
    match r {
        Ok(l) => Ok((l.format, l.value@)),
        Err(e) => Err(e@),
    }
}

/// The model of what was read of a file.
pub open spec fn contents_view(contents: Result<String, String>) -> Result<Seq<char>, Seq<char>> {
    match contents {
        Ok(t) => Ok(t@),
        Err(m) => Err(m@),
    }
}

/// The format in which a file is decoded: the one that its extension
/// stands for among the recognized tags, or YAML.
pub open spec fn document_format(extension: Option<Seq<char>>, known: Seq<Seq<char>>) -> Format {
    match format_of(matched_tag(extension, known)) {
        Some(f) => f,
        None => Format::Yaml,
    }
}

/// What a file gives: its document in the format of its extension, or the
/// reason why there is none.
pub open spec fn document_model(
    extension: Option<Seq<char>>,
    contents: Result<Seq<char>, Seq<char>>,
    known: Seq<Seq<char>>,
) -> Result<(Format, ValueModel), SourceErrorModel> {
    let format = document_format(extension, known);
    match contents {
        Err(m) => Err(SourceErrorModel::Read(m)),
        Ok(text) => match decoded(format, text) {
            Ok(v) => Ok((format, v)),
            Err(message) => Err(SourceErrorModel::Parse { format, message }),
        },
    }
}

/// The index of the first outcome from `from` on that is a document, or
/// the number of outcomes.
pub open spec fn first_document(outcomes: Seq<(Format, Result<ValueModel, Seq<char>>)>, from: int) -> int
    decreases outcomes.len() - from,
{
    if from < 0 || from >= outcomes.len() {
        outcomes.len() as int
    } else if outcomes[from].1 is Ok {
        from
    } else {
        first_document(outcomes, from + 1)
    }
}

/// The messages of the outcomes that are none.
pub open spec fn rejections(outcomes: Seq<(Format, Result<ValueModel, Seq<char>>)>) -> Seq<
    Seq<char>,
> {
    Seq::new(
        outcomes.len(),
        |i: int|
            match outcomes[i].1 {
                Err(message) => message,
                Ok(_) => Seq::empty(),
            },
    )
}

/// Of the outcomes of trying a text in several formats, the first that is
/// a document, with its format; where none is, the messages of them all.
pub open spec fn first_accepted_model(
    outcomes: Seq<(Format, Result<ValueModel, Seq<char>>)>,
) -> Result<(Format, ValueModel), SourceErrorModel> {
    let i = first_document(outcomes, 0);
    if i < outcomes.len() {
        Ok((outcomes[i].0, outcomes[i].1->Ok_0))
    } else {
        Err(SourceErrorModel::Unrecognized { messages: rejections(outcomes) })
    }
}

/// What an inline text gives: the document of the first format, of JSON,
/// YAML and TOML in this order, that accepts the text.
pub open spec fn raw_model(text: Seq<char>) -> Result<(Format, ValueModel), SourceErrorModel> {
    first_accepted_model(
        seq![
            (Format::Json, decoded(Format::Json, text)),
            (Format::Yaml, decoded(Format::Yaml, text)),
            (Format::Toml, decoded(Format::Toml, text)),
        ],
    )
}

/// The models of the outcomes of trying a text in several formats.
pub open spec fn outcomes_view(outcomes: Seq<(Format, Result<StructuredValue, String>)>) -> Seq<
    (Format, Result<ValueModel, Seq<char>>),
> {
    Seq::new(outcomes.len(), |i: int| (outcomes[i].0, outcome_view(outcomes[i].1)))
}

/// What a value of the `config` crate holds: its scalar, a number as
/// the text that the crate displays for it, or what the values under it
/// hold, in their order. The order of a table is that of its keys in the
/// document, which the crate keeps as it is built here, with its feature
/// `preserve_order`.
pub uninterp spec fn content(value: config::Value) -> ValueModel;

/// A value of the `config` crate, opened by one level: what it holds
/// itself, and the values under it as they are.
enum Node {
    Null,
    Bool(bool),
    Number(String),
    Text(String),
    Items(Vec<config::Value>),
    Entries(Vec<(String, config::Value)>),
}

/// What the items of an opened list hold.
spec fn items_content(items: Seq<config::Value>) -> Seq<ValueModel> {
    Seq::new(items.len(), |i: int| content(items[i]))
}

/// What the entries of an opened table hold.
spec fn entries_content(entries: Seq<(String, config::Value)>) -> Seq<(Seq<char>, ValueModel)> {
    Seq::new(entries.len(), |i: int| (entries[i].0@, content(entries[i].1)))
}

/// What an opened value holds.
spec fn node_content(node: Node) -> ValueModel {
    match node {
        Node::Null => ValueModel::Null,
        Node::Bool(b) => ValueModel::Bool(b),
        Node::Number(n) => ValueModel::Number(n@),
        Node::Text(s) => ValueModel::Text(s@),
        Node::Items(items) => ValueModel::List(items_content(items@)),
        Node::Entries(entries) => ValueModel::Object(entries_content(entries@)),
    }
}

/// Calls `config::Format::parse` of `config::FileFormat` for `format`.
///
/// The contract claims that the outcome is a function of the format and
/// the text alone, that a document which parses has a table at its root,
/// and that no table in it holds a key twice.
#[verifier::external_body]
fn parse(format: Format, text: &str) -> (r: Result<config::Value, String>)
    ensures
        match r {
            Ok(v) => decoded(format, text@) == Ok::<ValueModel, Seq<char>>(content(v))
                && content(v) is Object && well_formed(content(v)),
            Err(e) => decoded(format, text@) == Err::<ValueModel, Seq<char>>(e@),
        },
{
    let parser = match format {
        Format::Yaml => config::FileFormat::Yaml,
        Format::Json => config::FileFormat::Json,
        Format::Toml => config::FileFormat::Toml,
    };
    match config::Format::parse(&parser, None, text) {
        Ok(table) => Ok(config::Value::from(table)),
        Err(e) => Err(e.to_string()),
    }
}

/// Opens a value of the `config` crate by one level, telling the variants
/// of `config::ValueKind` apart. The five variants that hold a number,
/// integers of either sign and width and the floating-point one, share
/// one arm: each becomes the text that `config::ValueKind` displays for
/// it, which is that of the number itself.
///
/// The contract claims that what the value holds is what the node shows:
/// the same boolean or text, the displayed text of a number, or the
/// values under an array or a table in their order.
#[verifier::external_body]
fn open(value: config::Value) -> (r: Node)
    ensures
        node_content(r) == content(value),
{
    match value.kind {
        config::ValueKind::Nil => Node::Null,
        config::ValueKind::Boolean(b) => Node::Bool(b),
        config::ValueKind::String(s) => Node::Text(s),
        config::ValueKind::Array(a) => Node::Items(a),
        config::ValueKind::Table(t) => Node::Entries(t.into_iter().collect()),
        number => Node::Number(number.to_string()),
    }
}

/// The items of `items` in the opposite order.
fn reversed<T>(items: Vec<T>) -> (r: Vec<T>)
    ensures
        r@ == items@.reverse(),
{
    let ghost all = items@;
    let mut rest = items;
    let mut out: Vec<T> = Vec::new();
    while rest.len() > 0
        invariant
            out.len() + rest.len() == all.len(),
            forall|i: int| 0 <= i < rest.len() ==> rest[i] == all[i],
            forall|i: int| 0 <= i < out.len() ==> out[i] == all[all.len() - 1 - i],
        decreases rest.len(),
    {
        let last = rest.pop().unwrap();
        out.push(last);
    }
    out
}

/// Rebuilds a value of the `config` crate as a [`StructuredValue`].
#[verifier::loop_isolation(false)]
fn from_outside(value: config::Value) -> (r: StructuredValue)
    ensures
        r@ == content(value),
    decreases content(value),
{
    match open(value) {
        Node::Null => StructuredValue::Null,
        Node::Bool(b) => StructuredValue::Bool(b),
        Node::Number(n) => StructuredValue::Number(n),
        Node::Text(s) => StructuredValue::Text(s),
        Node::Items(items) => {
            let ghost all = items@;
            let ghost held = items_content(all);
            let mut rest = reversed(items);
            let mut out: Vec<StructuredValue> = Vec::new();
            while rest.len() > 0
                invariant
                    content(value) == ValueModel::List(held),
                    out.len() + rest.len() == all.len(),
                    forall|i: int| 0 <= i < rest.len() ==> rest[i] == all[all.len() - 1 - i],
                    forall|i: int| 0 <= i < out.len() ==> (#[trigger] out[i])@ == held[i],
                decreases rest.len(),
            {
                let ghost k = out.len() as int;
                let next = rest.pop().unwrap();
                proof {
                    assert(decreases_to!(held => held[k]));
                    assert(decreases_to!(content(value) => content(value)->List_0));
                }
                out.push(from_outside(next));
            }
            assert(crate::value::items_view(out@) =~= held);
            StructuredValue::List(out)
        },
        Node::Entries(entries) => {
            let ghost all = entries@;
            let ghost held = entries_content(all);
            let mut rest = reversed(entries);
            let mut out: Vec<(String, StructuredValue)> = Vec::new();
            while rest.len() > 0
                invariant
                    content(value) == ValueModel::Object(held),
                    out.len() + rest.len() == all.len(),
                    forall|i: int| 0 <= i < rest.len() ==> rest[i] == all[all.len() - 1 - i],
                    forall|i: int|
                        0 <= i < out.len() ==> (#[trigger] out[i]).0@ == held[i].0 && out[i].1@
                            == held[i].1,
                decreases rest.len(),
            {
                let ghost k = out.len() as int;
                let (key, under) = rest.pop().unwrap();
                proof {
                    assert(decreases_to!(held[k] => held[k].1));
                    assert(decreases_to!(content(value) => content(value)->Object_0));
                }
                out.push((key, from_outside(under)));
            }
            assert(crate::value::entries_view(out@) =~= held);
            StructuredValue::Object(out)
        },
    }
}

/// Decodes `text` as a document of `format`: the document, or the
/// parser's message. A document has a table at its root, and no table in
/// it holds a key twice.
pub fn load_from_text(format: Format, text: &str) -> (r: Result<StructuredValue, String>)
    ensures
        outcome_view(r) == decoded(format, text@),
        r matches Ok(v) ==> v@ is Object && well_formed(v@),
{
    match parse(format, text) {
        Ok(value) => Ok(from_outside(value)),
        Err(e) => Err(e),
    }
}

/// Chooses among the outcomes of trying a text in several formats: the
/// first that is a document wins; where none is, the error holds the
/// message of each format, in the order of the trials.
pub fn first_accepted(outcomes: Vec<(Format, Result<StructuredValue, String>)>) -> (r: Result<
    Loaded,
    SourceError,
>)
    ensures
        loaded_view(r) == first_accepted_model(outcomes_view(outcomes@)),
{
    let ghost all = outcomes_view(outcomes@);
    let ghost count = outcomes.len();
    let mut rest = reversed(outcomes);
    let mut messages: Vec<String> = Vec::new();
    while rest.len() > 0
        invariant
            all == outcomes_view(outcomes@),
            count == outcomes.len(),
            messages.len() + rest.len() == count,
            forall|i: int| 0 <= i < rest.len() ==> rest[i] == outcomes[count - 1 - i],
            first_document(all, 0) == first_document(all, messages.len() as int),
            forall|i: int|
                0 <= i < messages.len() ==> (#[trigger] messages[i])@ == rejections(all)[i],
        decreases rest.len(),
    {
        let (format, outcome) = rest.pop().unwrap();
        match outcome {
            Ok(value) => {
                return Ok(Loaded { format, value });
            },
            Err(message) => {
                messages.push(message);
            },
        }
    }
    assert(messages.deep_view() =~= rejections(all));
    Err(SourceError::Unrecognized { messages })
}

/// Decodes an inline text, which has no extension to go by: it is tried
/// as JSON, then as YAML, then as TOML, and the first format that accepts
/// it wins. JSON comes first because its grammar is the strictest.
pub fn load_from_raw(text: &str) -> (r: Result<Loaded, SourceError>)
    ensures
        loaded_view(r) == raw_model(text@),
        r matches Ok(l) ==> l.value@ is Object && well_formed(l.value@),
{
    let ghost outcomes = seq![
        (Format::Json, decoded(Format::Json, text@)),
        (Format::Yaml, decoded(Format::Yaml, text@)),
        (Format::Toml, decoded(Format::Toml, text@)),
    ];
    proof {
        reveal_with_fuel(first_document, 4);
    }
    match load_from_text(Format::Json, text) {
        Ok(value) => Ok(Loaded { format: Format::Json, value }),
        Err(json) => match load_from_text(Format::Yaml, text) {
            Ok(value) => Ok(Loaded { format: Format::Yaml, value }),
            Err(yaml) => match load_from_text(Format::Toml, text) {
                Ok(value) => Ok(Loaded { format: Format::Toml, value }),
                Err(toml) => {
                    let mut messages: Vec<String> = Vec::new();
                    messages.push(json);
                    messages.push(yaml);
                    messages.push(toml);
                    assert(messages.deep_view() =~= rejections(outcomes));
                    Err(SourceError::Unrecognized { messages })
                },
            },
        },
    }
}

/// Decodes what was read of a file whose extension is `extension`.
///
/// The format is the one that the extension, lower-cased, stands for among
/// `known_formats`; a file without an extension, or with one that is no
/// recognized tag, is taken for YAML. A file that could not be read, or
/// whose text the parser rejects, gives the error that says so.
pub fn load_document(
    extension: Option<&str>,
    contents: &Result<String, String>,
    known_formats: &Vec<String>,
) -> (r: Result<Loaded, SourceError>)
    ensures
        loaded_view(r) == document_model(
            match extension {
                Some(e) => Some(e@),
                None => None,
            },
            contents_view(*contents),
            known_formats.deep_view(),
        ),
        r matches Ok(l) ==> l.value@ is Object && well_formed(l.value@),
{
    let format = match crate::format::match_extension(extension, known_formats) {
        Some(tag) => crate::format::tag_format(tag.as_str()),
        None => Format::Yaml,
    };
    match contents {
        Err(m) => Err(SourceError::Read(m.clone())),
        Ok(text) => match load_from_text(format, text.as_str()) {
            Ok(value) => Ok(Loaded { format, value }),
            Err(message) => Err(SourceError::Parse { format, message }),
        },
    }
}

/// A source of configuration: a file, with its path and what was read of
/// it, or a text given inline.
#[derive(Debug, PartialEq, Eq)]
pub enum ConfigSource {
    FilePath { path: String, contents: Result<String, String> },
    RawText(String),
}

/// Loads a source: a file in the format of its extension, an inline text
/// in the first format that accepts it.
pub fn load_from_source(source: &ConfigSource, known_formats: &Vec<String>) -> (r: Result<
    Loaded,
    SourceError,
>)
    ensures
        match source {
            ConfigSource::FilePath { path, contents } => exists|extension: Option<Seq<char>>|
                crate::format::is_extension_of(path@, extension) && loaded_view(r)
                    == #[trigger] document_model(
                    extension,
                    contents_view(*contents),
                    known_formats.deep_view(),
                ),
            ConfigSource::RawText(text) => loaded_view(r) == raw_model(text@),
        },
        r matches Ok(l) ==> l.value@ is Object && well_formed(l.value@),
{
    match source {
        ConfigSource::FilePath { path, contents } => load_from_path(
            path.as_str(),
            contents,
            known_formats,
        ),
        ConfigSource::RawText(text) => load_from_raw(text.as_str()),
    }
}

/// Decodes what was read of the file at `path`.
///
/// Which part of the path is its extension is for `std::path::Path` to say;
/// [`load_document`] says what follows from each answer.
pub fn load_from_path(path: &str, contents: &Result<String, String>, known_formats: &Vec<String>) -> (r:
    Result<Loaded, SourceError>)
    ensures
        exists|extension: Option<Seq<char>>|
            crate::format::is_extension_of(path@, extension) && loaded_view(r)
                == #[trigger] document_model(
                extension,
                contents_view(*contents),
                known_formats.deep_view(),
            ),
        r matches Ok(l) ==> l.value@ is Object && well_formed(l.value@),
{
    let extension = crate::format::path_extension(path);
    match extension {
        Some(e) => load_document(Some(e.as_str()), contents, known_formats),
        None => load_document(None, contents, known_formats),
    }
}

} // verus!
