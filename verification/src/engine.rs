//! The resolution from end to end: which source is asked for, what the
//! sources give, and the final value of every field, with a report of the
//! file and the format that were used.
//!
//! Nothing here touches the disk or the process. The caller reads the
//! file that [`source_plan`] and the discovery ask for and hands over what
//! it read; failures of a source come back as diagnostics beside a
//! resolution that went on without that source.

use crate::config_file::{
    combine, combined, diagnostics_view, file_outcome_view, file_view, fits_file, load_model,
    raw_outcome_view, ConfigFile, FileRead, LoadedModel, OutcomeModel,
};
use crate::format::Format;
use crate::loader::{Loaded, SourceError, SourceErrorModel};
use crate::merge::merge_model;
use crate::resolve::{resolve_field, resolved_value};
use crate::schema::{fields_view, optional_view, FieldModel, FieldSchema, Schema};
use crate::value::{entries_view, StructuredValue, ValueModel};
use vstd::prelude::*;

verus! {

/// The final value of every field, under the field's key and in the order
/// of the schema.
#[derive(Debug, PartialEq, Eq)]
pub struct ResolvedConfig {
    pub entries: Vec<(String, StructuredValue)>,
}

/// Which file and which format gave the configuration, if any did.
#[derive(Debug, PartialEq, Eq)]
pub struct ResolutionReport {
    pub used_path: Option<String>,
    pub used_format: Option<Format>,
}

/// What a resolution returns: the configuration, the report, and what
/// there is to tell the user about sources that failed.
#[derive(Debug, PartialEq, Eq)]
pub struct Resolution {
    pub config: ResolvedConfig,
    pub report: ResolutionReport,
    pub diagnostics: Vec<SourceError>,
}

/// Where the configuration file is to come from.
#[derive(Debug, PartialEq, Eq)]
pub enum SourcePlan {
    /// No file is wanted: neither discovery nor loading takes place.
    Skip,
    /// The file at this path, without discovery.
    Explicit(String),
    /// The file that discovery finds.
    Discover,
}

/// The model of a [`SourcePlan`].
pub enum SourcePlanModel {
    Skip,
    Explicit(Seq<char>),
    Discover,
}

impl View for SourcePlan {
    type V = SourcePlanModel;

    open spec fn view(&self) -> SourcePlanModel {
        match self {
            SourcePlan::Skip => SourcePlanModel::Skip,
            SourcePlan::Explicit(p) => SourcePlanModel::Explicit(p@),
            SourcePlan::Discover => SourcePlanModel::Discover,
        }
    }
}

/// The model of a [`Resolution`].
pub struct ResolutionModel {
    pub entries: Seq<(Seq<char>, ValueModel)>,
    pub used_path: Option<Seq<char>>,
    pub used_format: Option<Format>,
    pub diagnostics: Seq<SourceErrorModel>,
}

impl View for Resolution {
    type V = ResolutionModel;

    open spec fn view(&self) -> ResolutionModel {
        ResolutionModel {
            entries: entries_view(self.config.entries@),
            used_path: crate::format::text_view(self.report.used_path),
            used_format: self.report.used_format,
            diagnostics: diagnostics_view(self.diagnostics@),
        }
    }
}

/// The models of the values that the command line supplied.
pub open spec fn cli_view(cli: Seq<Option<StructuredValue>>) -> Seq<Option<ValueModel>> {
    Seq::new(cli.len(), |i: int| optional_view(cli[i]))
}

/// The value that the command line supplied for the `i`-th field: none
/// where the list of values ends before it.
pub open spec fn cli_at(cli: Seq<Option<ValueModel>>, i: int) -> Option<ValueModel> {
    if 0 <= i < cli.len() {
        cli[i]
    } else {
        None
    }
}

/// Every field of the schema resolved against one merged document.
pub open spec fn resolved_fields(
    fields: Seq<FieldModel>,
    cli: Seq<Option<ValueModel>>,
    merged: ValueModel,
) -> Seq<(Seq<char>, ValueModel)> {
    Seq::new(
        fields.len(),
        |i: int| (fields[i].key, resolved_value(fields[i], cli_at(cli, i), merged)),
    )
}

/// The resolution of the fields against what the sources gave together.
pub open spec fn resolution_of(
    fields: Seq<FieldModel>,
    cli: Seq<Option<ValueModel>>,
    loaded: LoadedModel,
) -> ResolutionModel {
    ResolutionModel {
        entries: resolved_fields(fields, cli, loaded.value),
        used_path: loaded.used_path,
        used_format: loaded.used_format,
        diagnostics: loaded.diagnostics,
    }
}

/// A resolution from what the sources gave: the fields are resolved
/// against the inline document merged over that of the file.
///
/// The report names the file and its format only where the file gave a
/// document.
pub open spec fn assembled(
    fields: Seq<FieldModel>,
    cli: Seq<Option<ValueModel>>,
    file: Option<(Seq<char>, OutcomeModel)>,
    raw: Option<OutcomeModel>,
) -> ResolutionModel {
    resolution_of(fields, cli, combined(file, raw))
}

/// The whole resolution, where `extension` is the extension of the path
/// of the file.
///
/// With `no_config` no source is looked at, whatever was read or given
/// inline, and every field falls back on the command line and its default.
pub open spec fn resolution_model(
    fields: Seq<FieldModel>,
    known: Seq<Seq<char>>,
    no_config: bool,
    raw_config: Option<Seq<char>>,
    cli: Seq<Option<ValueModel>>,
    file: Option<(Seq<char>, Result<Seq<char>, Seq<char>>)>,
    extension: Option<Seq<char>>,
) -> ResolutionModel {
    resolution_of(fields, cli, load_model(known, no_config, raw_config, file, extension))
}

impl ResolvedConfig {
    /// The final value of the field whose key is `key`.
    pub fn get(&self, key: &str) -> (r: Option<&StructuredValue>)
        ensures
            match r {
                Some(v) => crate::value::lookup(
                    ValueModel::Object(entries_view(self.entries@)),
                    key@,
                ) == Some(v@),
                None => crate::value::lookup(
                    ValueModel::Object(entries_view(self.entries@)),
                    key@,
                ) is None,
            },
    {
        match crate::value::find_key(&self.entries, key) {
            Some(i) => Some(&self.entries[i].1),
            None => None,
        }
    }

    /// The configuration as one object: an entry for each field, in the
    /// order of the schema.
    pub fn to_value(&self) -> (r: StructuredValue)
        ensures
            r@ == ValueModel::Object(entries_view(self.entries@)),
    {
        let mut entries: Vec<(String, StructuredValue)> = Vec::new();
        let mut i: usize = 0;
        while i < self.entries.len()
            invariant
                0 <= i <= self.entries.len(),
                entries.len() == i,
                forall|j: int|
                    0 <= j < i ==> (#[trigger] entries[j]).0@ == self.entries[j].0@
                        && entries[j].1@ == self.entries[j].1@,
            decreases self.entries.len() - i,
        {
            entries.push((self.entries[i].0.clone(), self.entries[i].1.duplicate()));
            i += 1;
        }
        assert(entries_view(entries@) =~= entries_view(self.entries@));
        StructuredValue::Object(entries)
    }
}

/// The plan that the flags ask for.
pub open spec fn plan_model(no_config: bool, config_file: Option<Seq<char>>) -> SourcePlanModel {
    if no_config {
        SourcePlanModel::Skip
    } else {
        match config_file {
            Some(p) => SourcePlanModel::Explicit(p),
            None => SourcePlanModel::Discover,
        }
    }
}

/// The inline document wins over the file key by key, not as a whole: what
/// the configuration gives a field is the inline value merged over the
/// file's value where the inline document holds more than `Null` under the
/// field's key, the file's value where it does not, and the field's
/// default where neither document has the key.
pub proof fn lemma_raw_over_file(
    field: FieldModel,
    file: Seq<(Seq<char>, ValueModel)>,
    raw: Seq<(Seq<char>, ValueModel)>,
)
    requires
        crate::value::keys_unique(raw),
    ensures
        crate::resolve::config_value(
            field,
            merge_model(ValueModel::Object(file), ValueModel::Object(raw)),
        ) == match crate::merge::merged_lookup(
            ValueModel::Object(file),
            ValueModel::Object(raw),
            field.key,
        ) {
            Some(v) => v,
            None => crate::resolve::field_default(field),
        },
{
    crate::merge::lemma_merge_lookup(file, raw, field.key);
}

/// With `no_config` nothing of the file or of the inline text reaches the
/// result, whatever they hold: a field that the command line left alone
/// has its default, or its zero value where it is internal, the report
/// names neither file nor format, and there are no diagnostics.
pub proof fn lemma_no_config_defaults(
    fields: Seq<FieldModel>,
    known: Seq<Seq<char>>,
    raw_config: Option<Seq<char>>,
    cli: Seq<Option<ValueModel>>,
    file: Option<(Seq<char>, Result<Seq<char>, Seq<char>>)>,
    extension: Option<Seq<char>>,
    i: int,
)
    requires
        0 <= i < fields.len(),
        cli_at(cli, i) is None,
    ensures
        resolution_model(fields, known, true, raw_config, cli, file, extension).entries[i] == (
            fields[i].key,
            if fields[i].availability == crate::parse_attrs::FieldAvailability::Internal {
                crate::resolve::zero_value(fields[i].value_kind)
            } else {
                crate::resolve::field_default(fields[i])
            },
        ),
        resolution_model(fields, known, true, raw_config, cli, file, extension).used_path is None,
        resolution_model(fields, known, true, raw_config, cli, file, extension).used_format
            is None,
        resolution_model(fields, known, true, raw_config, cli, file, extension).diagnostics.len()
            == 0,
{
}

/// Says where the configuration file is to come from: nowhere with
/// `no_config`, from the explicit path where one was given, and from
/// discovery otherwise.
pub fn source_plan(flags: &ConfigFile) -> (r: SourcePlan)
    ensures
        r@ == plan_model(flags.no_config, crate::format::text_view(flags.config_file)),
{
    if flags.no_config {
        SourcePlan::Skip
    } else {
        match &flags.config_file {
            Some(p) => SourcePlan::Explicit(p.clone()),
            None => SourcePlan::Discover,
        }
    }
}

/// Resolves every field of `fields` against `merged`; the `i`-th value of
/// `cli` is what the command line supplied for the `i`-th field.
pub fn resolve_fields(
    fields: &Vec<FieldSchema>,
    cli: &Vec<Option<StructuredValue>>,
    merged: &StructuredValue,
) -> (r: ResolvedConfig)
    ensures
        entries_view(r.entries@) == resolved_fields(fields_view(fields@), cli_view(cli@), merged@),
{
    let mut entries: Vec<(String, StructuredValue)> = Vec::new();
    let mut i: usize = 0;
    while i < fields.len()
        invariant
            0 <= i <= fields.len(),
            entries.len() == i,
            forall|j: int|
                0 <= j < i ==> (#[trigger] entries[j]).0@ == fields[j]@.key && entries[j].1@
                    == resolved_value(fields[j]@, cli_at(cli_view(cli@), j), merged@),
        decreases fields.len() - i,
    {
        let value = if i < cli.len() {
            match &cli[i] {
                Some(v) => resolve_field(&fields[i], Some(v), merged),
                None => resolve_field(&fields[i], None, merged),
            }
        } else {
            resolve_field(&fields[i], None, merged)
        };
        entries.push((fields[i].key.clone(), value));
        i += 1;
    }
    ResolvedConfig { entries }
}

/// Resolves the fields against what the sources gave together.
pub fn resolve_loaded(
    fields: &Vec<FieldSchema>,
    cli: &Vec<Option<StructuredValue>>,
    loaded: crate::config_file::LoadedConfig,
) -> (r: Resolution)
    ensures
        r@ == resolution_of(fields_view(fields@), cli_view(cli@), loaded@),
{
    let config = resolve_fields(fields, cli, &loaded.value);
    Resolution {
        config,
        report: ResolutionReport { used_path: loaded.used_path, used_format: loaded.used_format },
        diagnostics: loaded.diagnostics,
    }
}

/// Builds the resolution from what the sources gave: `file` is the path
/// of the configuration file and what loading it gave, `raw` what the
/// inline text gave.
///
/// The inline document is merged over that of the file. A source that
/// failed counts as absent and leaves a diagnostic; the report names the
/// file only where it gave a document.
pub fn assemble(
    fields: &Vec<FieldSchema>,
    cli: &Vec<Option<StructuredValue>>,
    file: Option<(String, Result<Loaded, SourceError>)>,
    raw: Option<Result<Loaded, SourceError>>,
) -> (r: Resolution)
    ensures
        r@ == assembled(
            fields_view(fields@),
            cli_view(cli@),
            file_outcome_view(file),
            raw_outcome_view(raw),
        ),
{
    resolve_loaded(fields, cli, combine(file, raw))
}

/// Resolves a configuration, where `extension` is the extension of the
/// path of the file.
///
/// With `no_config` no source is looked at: every field has the value of
/// the command line or its default, and the report names no file. Else
/// the file, if there is one, is decoded in the format of its extension,
/// the inline document of the flags, if there is one, is merged over it,
/// and every field is resolved against the result. A source that fails
/// leaves a diagnostic and counts as absent.
pub fn resolve_with_extension(
    schema: &Schema,
    flags: &ConfigFile,
    cli: &Vec<Option<StructuredValue>>,
    file: Option<&FileRead>,
    extension: Option<&str>,
) -> (r: Resolution)
    ensures
        r@ == resolution_model(
            fields_view(schema.fields@),
            schema.config.formats.deep_view(),
            flags.no_config,
            crate::format::text_view(flags.raw_config),
            cli_view(cli@),
            file_view(file),
            match extension {
                Some(e) => Some(e@),
                None => None,
            },
        ),
{
    resolve_loaded(&schema.fields, cli, flags.load(file, extension, &schema.config.formats))
}

/// Resolves a configuration.
///
/// `flags` are the flags of the command line that steer the sources,
/// `cli` holds for each field of the schema the value that the command
/// line supplied, and `file` is what the caller read of the file that the
/// plan asked for, if there is one.
///
/// Which part of a path is its file name is for `std::path::Path` to
/// say; [`resolve_with_extension`] says what follows from each extension.
pub fn resolve(
    schema: &Schema,
    flags: &ConfigFile,
    cli: &Vec<Option<StructuredValue>>,
    file: Option<&FileRead>,
) -> (r: Resolution)
    ensures
        exists|extension: Option<Seq<char>>|
            fits_file(file, extension) && r@ == #[trigger] resolution_model(
                fields_view(schema.fields@),
                schema.config.formats.deep_view(),
                flags.no_config,
                crate::format::text_view(flags.raw_config),
                cli_view(cli@),
                file_view(file),
                extension,
            ),
{
    let loaded = flags.load_from_path(file, &schema.config.formats);
    let ghost extension = choose|extension: Option<Seq<char>>|
        fits_file(file, extension) && loaded@ == #[trigger] load_model(
            schema.config.formats.deep_view(),
            flags.no_config,
            crate::format::text_view(flags.raw_config),
            file_view(file),
            extension,
        );
    let r = resolve_loaded(&schema.fields, cli, loaded);
    assert(r@ == resolution_model(
        fields_view(schema.fields@),
        schema.config.formats.deep_view(),
        flags.no_config,
        crate::format::text_view(flags.raw_config),
        cli_view(cli@),
        file_view(file),
        extension,
    ));
    r
}

} // verus!
