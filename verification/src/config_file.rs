//! The flags that steer where a configuration is read from, and loading
//! the configuration document that they ask for: the document of the file
//! with the inline document merged over it.

use crate::format::{is_extension_of, path_extension, text_view, Format};
use crate::loader::{
    contents_view, document_model, load_document, load_from_raw, loaded_view, raw_model, Loaded,
    SourceError, SourceErrorModel,
};
use crate::merge::{merge, merge_model};
use crate::value::{entries_view, well_formed, StructuredValue, ValueModel};
use vstd::prelude::*;

verus! {

/// The configuration-related flags of a command line, and what is left of
/// its arguments.
#[derive(Debug, Clone, PartialEq, Eq)]
pub struct ConfigFile {
    /// The configuration file is not to be read at all.
    pub no_config: bool,
    /// An explicit path of the configuration file.
    pub config_file: Option<String>,
    /// A configuration document given inline.
    pub raw_config: Option<String>,
    /// The arguments after the known flags.
    pub leftover: Vec<String>,
}

impl Default for ConfigFile {
    fn default() -> (r: Self)
        ensures
            !r.no_config,
            r.config_file is None,
            r.raw_config is None,
            r.leftover@.len() == 0,
    {
        ConfigFile { no_config: false, config_file: None, raw_config: None, leftover: Vec::new() }
    }
}

/// What the caller read of the configuration file: its path, and its
/// text or the reader's message.
#[derive(Debug, PartialEq, Eq)]
pub struct FileRead {
    pub path: String,
    pub contents: Result<String, String>,
}

/// The configuration document that the sources gave together.
#[derive(Debug, PartialEq, Eq)]
pub struct LoadedConfig {
    /// The inline document merged over the document of the file.
    pub value: StructuredValue,
    /// The path of the file, where the file gave a document.
    pub used_path: Option<String>,
    /// The format of the file, where the file gave a document.
    pub used_format: Option<Format>,
    /// The format that accepted the inline text, where one did.
    pub raw_format: Option<Format>,
    /// The failure of the file, then that of the inline text.
    pub diagnostics: Vec<SourceError>,
}

/// The model of a [`LoadedConfig`].
pub struct LoadedModel {
    pub value: ValueModel,
    pub used_path: Option<Seq<char>>,
    pub used_format: Option<Format>,
    pub raw_format: Option<Format>,
    pub diagnostics: Seq<SourceErrorModel>,
}

/// What a source gave, as a model.
pub type OutcomeModel = Result<(Format, ValueModel), SourceErrorModel>;

/// The models of the diagnostics.
pub open spec fn diagnostics_view(diagnostics: Seq<SourceError>) -> Seq<SourceErrorModel> {
    Seq::new(diagnostics.len(), |i: int| diagnostics[i]@)
}

impl View for LoadedConfig {
    type V = LoadedModel;

    open spec fn view(&self) -> LoadedModel {
        LoadedModel {
            value: self.value@,
            used_path: text_view(self.used_path),
            used_format: self.used_format,
            raw_format: self.raw_format,
            diagnostics: diagnostics_view(self.diagnostics@),
        }
    }
}

/// The document that the file gave: an empty object where there was no
/// file or the file failed.
pub open spec fn base_document(file: Option<(Seq<char>, OutcomeModel)>) -> ValueModel {
    match file {
        Some((_, Ok((_, v)))) => v,
        _ => ValueModel::Object(Seq::empty()),
    }
}

/// The document of the sources together: the inline document merged over
/// that of the file, so that it wins key by key and not as a whole. A
/// source that failed counts as absent.
pub open spec fn merged_document(
    file: Option<(Seq<char>, OutcomeModel)>,
    raw: Option<OutcomeModel>,
) -> ValueModel {
    match raw {
        Some(Ok((_, v))) => merge_model(base_document(file), v),
        _ => base_document(file),
    }
}

/// What the sources leave to tell: the failure of the file, then that of
/// the inline text.
pub open spec fn source_diagnostics(
    file: Option<(Seq<char>, OutcomeModel)>,
    raw: Option<OutcomeModel>,
) -> Seq<SourceErrorModel> {
    let of_file = match file {
        Some((_, Err(e))) => seq![e],
        _ => Seq::empty(),
    };
    let of_raw = match raw {
        Some(Err(e)) => seq![e],
        _ => Seq::empty(),
    };
    of_file + of_raw
}

/// What the sources gave together: `file` is the path of the file with
/// what loading it gave, `raw` what the inline text gave. The file and
/// its format are named only where the file gave a document.
pub open spec fn combined(
    file: Option<(Seq<char>, OutcomeModel)>,
    raw: Option<OutcomeModel>,
) -> LoadedModel {
    LoadedModel {
        value: merged_document(file, raw),
        used_path: match file {
            Some((path, Ok(_))) => Some(path),
            _ => None,
        },
        used_format: match file {
            Some((_, Ok((format, _)))) => Some(format),
            _ => None,
        },
        raw_format: match raw {
            Some(Ok((format, _))) => Some(format),
            _ => None,
        },
        diagnostics: source_diagnostics(file, raw),
    }
}

/// The model of what the caller read.
pub open spec fn file_view(file: Option<&FileRead>) -> Option<(
    Seq<char>,
    Result<Seq<char>, Seq<char>>,
)> {
    match file {
        Some(f) => Some((f.path@, contents_view(f.contents))),
        None => None,
    }
}

/// What the file gives: its path with its document in the format of its
/// extension, or with the reason why there is none.
pub open spec fn file_outcome(
    known: Seq<Seq<char>>,
    file: Option<(Seq<char>, Result<Seq<char>, Seq<char>>)>,
    extension: Option<Seq<char>>,
) -> Option<(Seq<char>, OutcomeModel)> {
    match file {
        Some((path, contents)) => Some((path, document_model(extension, contents, known))),
        None => None,
    }
}

/// What the inline text gives: its document in the first of JSON, YAML
/// and TOML that accepts it, or the messages of all three.
pub open spec fn raw_outcome(raw_config: Option<Seq<char>>) -> Option<OutcomeModel> {
    match raw_config {
        Some(text) => Some(raw_model(text)),
        None => None,
    }
}

/// What loading gives, where `extension` is the extension of the path of
/// the file.
///
/// With `no_config` no source is looked at, whatever was read or given
/// inline: the document is the empty object. Else the file is decoded in
/// the format of its extension, the inline text in the first of JSON,
/// YAML and TOML that accepts it, and the inline document is merged over
/// that of the file.
pub open spec fn load_model(
    known: Seq<Seq<char>>,
    no_config: bool,
    raw_config: Option<Seq<char>>,
    file: Option<(Seq<char>, Result<Seq<char>, Seq<char>>)>,
    extension: Option<Seq<char>>,
) -> LoadedModel {
    if no_config {
        combined(None, None)
    } else {
        combined(file_outcome(known, file, extension), raw_outcome(raw_config))
    }
}

/// What loading gives once the default document stands in where no source
/// gave a document: `loaded` itself with `no_config` or where the file or
/// the inline text gave one; else the default document, tried as JSON,
/// then as YAML, then as TOML, with its failure, if it fails, behind the
/// diagnostics of the sources.
pub open spec fn with_default(
    no_config: bool,
    loaded: LoadedModel,
    default_config: Seq<char>,
) -> LoadedModel {
    if no_config || loaded.used_path is Some || loaded.raw_format is Some {
        loaded
    } else {
        let fallback = combined(None, Some(raw_model(default_config)));
        LoadedModel {
            value: fallback.value,
            used_path: None,
            used_format: None,
            raw_format: fallback.raw_format,
            diagnostics: loaded.diagnostics + fallback.diagnostics,
        }
    }
}

/// Whether `extension` may be the extension of the path of the file that
/// was read; without a file there is none.
pub open spec fn fits_file(file: Option<&FileRead>, extension: Option<Seq<char>>) -> bool {
    match file {
        Some(f) => is_extension_of(f.path@, extension),
        None => extension is None,
    }
}

/// Whether what a source gave, if it gave a document, is an object with
/// unique keys throughout.
pub open spec fn sound_outcome(outcome: Option<OutcomeModel>) -> bool {
    outcome matches Some(Ok((_, v))) ==> v is Object && well_formed(v)
}

/// The model of the outcome of a file.
pub open spec fn file_outcome_view(file: Option<(String, Result<Loaded, SourceError>)>) -> Option<
    (Seq<char>, OutcomeModel),
> {
    match file {
        Some((path, outcome)) => Some((path@, loaded_view(outcome))),
        None => None,
    }
}

/// The model of the outcome of an inline text.
pub open spec fn raw_outcome_view(raw: Option<Result<Loaded, SourceError>>) -> Option<
    OutcomeModel,
> {
    match raw {
        Some(outcome) => Some(loaded_view(outcome)),
        None => None,
    }
}

/// The outcome of a file without its path.
pub open spec fn without_path(file: Option<(Seq<char>, OutcomeModel)>) -> Option<OutcomeModel> {
    match file {
        Some((_, outcome)) => Some(outcome),
        None => None,
    }
}

/// Puts together what the sources gave: `file` is the path of the
/// configuration file and what loading it gave, `raw` what the inline
/// text gave.
///
/// The inline document is merged over that of the file. A source that
/// failed counts as absent and leaves a diagnostic; the file is named
/// only where it gave a document.
pub fn combine(
    file: Option<(String, Result<Loaded, SourceError>)>,
    raw: Option<Result<Loaded, SourceError>>,
) -> (r: LoadedConfig)
    ensures
        r@ == combined(file_outcome_view(file), raw_outcome_view(raw)),
        sound_outcome(without_path(file_outcome_view(file))) && sound_outcome(
            raw_outcome_view(raw),
        ) ==> r.value@ is Object && well_formed(r.value@),
{
    let ghost file_model = file_outcome_view(file);
    let ghost raw_model = raw_outcome_view(raw);
    let mut diagnostics: Vec<SourceError> = Vec::new();
    let mut used_path: Option<String> = None;
    let mut used_format: Option<Format> = None;
    let mut raw_format: Option<Format> = None;
    let empty: Vec<(String, StructuredValue)> = Vec::new();
    assert(entries_view(empty@) =~= Seq::empty());
    let mut base = StructuredValue::Object(empty);
    match file {
        Some((path, Ok(loaded))) => {
            used_path = Some(path);
            used_format = Some(loaded.format);
            base = loaded.value;
        },
        Some((_, Err(e))) => {
            diagnostics.push(e);
        },
        None => {},
    }
    let value = match raw {
        Some(Ok(loaded)) => {
            raw_format = Some(loaded.format);
            merge(&base, &loaded.value)
        },
        Some(Err(e)) => {
            diagnostics.push(e);
            base
        },
        None => base,
    };
    assert(diagnostics_view(diagnostics@) =~= source_diagnostics(file_model, raw_model));
    LoadedConfig { value, used_path, used_format, raw_format, diagnostics }
}

impl ConfigFile {
    /// Loads the configuration document that the flags ask for, where
    /// `file` is what the caller read of the configuration file, if there
    /// is one, and `extension` the extension of its path.
    ///
    /// With `no_config` the document is the empty object and nothing is
    /// reported. Else the file is decoded in the format that its
    /// extension stands for among `known_formats`, YAML where it stands
    /// for none; the inline text of the flags is tried as JSON, then as
    /// YAML, then as TOML; and the inline document is merged over that of
    /// the file, key by key. A file that cannot be read, a file or an
    /// inline text that does not parse, counts as absent and leaves a
    /// diagnostic.
    ///
    /// The documents that are merged are objects with unique keys
    /// throughout, and so is the result.
    pub fn load(
        &self,
        file: Option<&FileRead>,
        extension: Option<&str>,
        known_formats: &Vec<String>,
    ) -> (r: LoadedConfig)
        ensures
            r@ == load_model(
                known_formats.deep_view(),
                self.no_config,
                text_view(self.raw_config),
                file_view(file),
                match extension {
                    Some(e) => Some(e@),
                    None => None,
                },
            ),
            r.value@ is Object,
            well_formed(r.value@),
            !self.no_config ==> sound_outcome(raw_outcome(text_view(self.raw_config)))
                && sound_outcome(
                without_path(
                    file_outcome(
                        known_formats.deep_view(),
                        file_view(file),
                        match extension {
                            Some(e) => Some(e@),
                            None => None,
                        },
                    ),
                ),
            ),
    {
        if self.no_config {
            return combine(None, None);
        }
        let raw = match &self.raw_config {
            Some(text) => Some(load_from_raw(text.as_str())),
            None => None,
        };
        let loaded = match file {
            Some(f) => Some((f.path.clone(), load_document(extension, &f.contents, known_formats))),
            None => None,
        };
        combine(loaded, raw)
    }

    /// Lets the default document `default_config` stand in where loading
    /// gave no document: `loaded` is what [`ConfigFile::load`] returned
    /// for these flags. With `no_config` the default document is not
    /// looked at either.
    pub fn or_default(&self, loaded: LoadedConfig, default_config: &str) -> (r: LoadedConfig)
        ensures
            r@ == with_default(self.no_config, loaded@, default_config@),
            loaded.value@ is Object && well_formed(loaded.value@) ==> r.value@ is Object
                && well_formed(r.value@),
    {
        if self.no_config || loaded.used_path.is_some() || loaded.raw_format.is_some() {
            return loaded;
        }
        let fallback = combine(None, Some(load_from_raw(default_config)));
        let ghost before = diagnostics_view(loaded.diagnostics@);
        let ghost after = diagnostics_view(fallback.diagnostics@);
        let mut diagnostics = loaded.diagnostics;
        let mut rest = fallback.diagnostics;
        if rest.len() > 0 {
            let last = rest.pop().unwrap();
            diagnostics.push(last);
        }
        assert(diagnostics_view(diagnostics@) =~= before + after);
        LoadedConfig {
            value: fallback.value,
            used_path: None,
            used_format: None,
            raw_format: fallback.raw_format,
            diagnostics,
        }
    }

    /// Loads the configuration document that the flags ask for, where
    /// `file` is what the caller read of the configuration file.
    ///
    /// Which part of a path is its file name is for `std::path::Path` to
    /// say; [`ConfigFile::load`] says what follows from each extension.
    pub fn load_from_path(&self, file: Option<&FileRead>, known_formats: &Vec<String>) -> (r:
        LoadedConfig)
        ensures
            exists|extension: Option<Seq<char>>|
                fits_file(file, extension) && r@ == #[trigger] load_model(
                    known_formats.deep_view(),
                    self.no_config,
                    text_view(self.raw_config),
                    file_view(file),
                    extension,
                ),
            r.value@ is Object,
            well_formed(r.value@),
    {
        let extension = match file {
            Some(f) => path_extension(f.path.as_str()),
            None => None,
        };
        let r = match &extension {
            Some(e) => self.load(file, Some(e.as_str()), known_formats),
            None => self.load(file, None, known_formats),
        };
        assert(r@ == load_model(
            known_formats.deep_view(),
            self.no_config,
            text_view(self.raw_config),
            file_view(file),
            text_view(extension),
        ));
        r
    }
}

} // verus!
