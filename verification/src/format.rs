//! From the extension of a file to one of the known serialization formats.

use vstd::prelude::*;

verus! {

/// A serialization format of configuration documents.
#[derive(Debug, Clone, Copy, PartialEq, Eq, Structural)]
pub enum Format {
    Yaml,
    Json,
    Toml,
}

/// The lower-case form that `str::to_lowercase` gives a text.
pub uninterp spec fn lowercase_of(text: Seq<char>) -> Seq<char>;

/// Calls `str::to_lowercase`.
///
/// The contract claims only that the result is a function of the text.
#[verifier::external_body]
fn lowercase(text: &str) -> (r: String)
    ensures
        r@ == lowercase_of(text@),
{
    text.to_lowercase()
}

/// Whether `extension` stands in `path` right behind the dot at `at`.
pub open spec fn follows_dot(path: Seq<char>, extension: Seq<char>, at: int) -> bool {
    0 <= at && at + 1 + extension.len() <= path.len() && path[at] == '.' && path.subrange(
        at + 1,
        at + 1 + extension.len(),
    ) == extension
}

/// Whether a path is a bare file name on every platform: it holds no
/// separator and no colon.
pub open spec fn is_file_name(path: Seq<char>) -> bool {
    forall|i: int|
        0 <= i < path.len() ==> path[i] != '/' && path[i] != '\\' && #[trigger] path[i] != ':'
}

/// The greatest index below `upto` at which `name` holds a dot, or -1.
pub open spec fn last_dot(name: Seq<char>, upto: int) -> int
    decreases upto,
{
    if upto <= 0 || upto > name.len() {
        -1
    } else if name[upto - 1] == '.' {
        upto - 1
    } else {
        last_dot(name, upto - 1)
    }
}

/// The extension of a file name: what follows its last dot, unless the
/// name has no dot, has its only dot in front, or is `..`.
pub open spec fn name_extension(name: Seq<char>) -> Option<Seq<char>> {
    let dot = last_dot(name, name.len() as int);
    if dot <= 0 || name == seq!['.', '.'] {
        None
    } else {
        Some(name.subrange(dot + 1, name.len() as int))
    }
}

/// What holds of the extension of a path on every platform: it holds no
/// dot and stands in the path right behind a dot, so that a path without
/// a dot has none; and for a bare file name it is the extension of that
/// name. Which part of a longer path is its file name is for the platform
/// to say.
pub open spec fn is_extension_of(path: Seq<char>, extension: Option<Seq<char>>) -> bool {
    &&& extension matches Some(e) ==> !e.contains('.') && exists|at: int| #[trigger]
        follows_dot(path, e, at)
    &&& is_file_name(path) ==> extension == name_extension(path)
}

/// Calls `std::path::Path::extension` on `path`.
///
/// The contract claims what the documentation of the method says of
/// every platform: the extension is the part of the file name behind its
/// last dot, so it holds no dot and stands in the path behind one; and a
/// path without separator or drive is its own file name, whose extension
/// the documentation spells out.
#[verifier::external_body]
pub(crate) fn path_extension(path: &str) -> (r: Option<String>)
    ensures
        is_extension_of(path@, text_view(r)),
{
    std::path::Path::new(path).extension().and_then(|e| e.to_str()).map(|e| e.to_owned())
}

/// The format that a tag stands for: `json` and `toml` for their formats,
/// `yaml`, `yml` and any other tag for YAML.
pub open spec fn format_of_tag(tag: Seq<char>) -> Format {
    if tag == "json"@ {
        Format::Json
    } else if tag == "toml"@ {
        Format::Toml
    } else {
        Format::Yaml
    }
}

/// The tag among `known` that a lower-cased extension equals.
pub open spec fn tag_in(lowered: Seq<char>, known: Seq<Seq<char>>) -> Option<Seq<char>> {
    if known.contains(lowered) {
        Some(lowered)
    } else {
        None
    }
}

/// The tag among `known` that an extension matches once it is lower-cased.
pub open spec fn matched_tag(extension: Option<Seq<char>>, known: Seq<Seq<char>>) -> Option<
    Seq<char>,
> {
    match extension {
        Some(e) => tag_in(lowercase_of(e), known),
        None => None,
    }
}

/// The model of an optional text.
pub open spec fn text_view(text: Option<String>) -> Option<Seq<char>> {
    match text {
        Some(t) => Some(t@),
        None => None,
    }
}

/// The format of an optional tag.
pub open spec fn format_of(tag: Option<Seq<char>>) -> Option<Format> {
    match tag {
        Some(t) => Some(format_of_tag(t)),
        None => None,
    }
}

/// The format that a tag stands for.
pub fn tag_format(tag: &str) -> (r: Format)
    ensures
        r == format_of_tag(tag@),
{
    if crate::text::text_eq(tag, "json") {
        Format::Json
    } else if crate::text::text_eq(tag, "toml") {
        Format::Toml
    } else {
        Format::Yaml
    }
}

/// Matches an extension that is in lower case already against the format
/// tags that the host recognizes, and returns the tag it equals.
pub fn match_tag(lowered: &str, known_formats: &Vec<String>) -> (r: Option<String>)
    ensures
        text_view(r) == tag_in(lowered@, known_formats.deep_view()),
{
    let ghost known = known_formats.deep_view();
    let mut i: usize = 0;
    while i < known_formats.len()
        invariant
            0 <= i <= known_formats.len(),
            known == known_formats.deep_view(),
            forall|j: int| 0 <= j < i ==> known[j] != lowered@,
        decreases known_formats.len() - i,
    {
        if crate::text::text_eq(known_formats[i].as_str(), lowered) {
            assert(known[i as int] == lowered@);
            return Some(known_formats[i].clone());
        }
        i += 1;
    }
    None
}

/// Matches the extension of a file, lower-cased, against the format tags
/// that the host recognizes, and returns the tag it equals.
pub fn match_extension(extension: Option<&str>, known_formats: &Vec<String>) -> (r: Option<String>)
    ensures
        text_view(r) == matched_tag(
            match extension {
                Some(e) => Some(e@),
                None => None,
            },
            known_formats.deep_view(),
        ),
{
    match extension {
        None => None,
        Some(e) => {
            let lowered = lowercase(e);
            match_tag(lowered.as_str(), known_formats)
        },
    }
}

/// The tag, among those the host recognizes, that the extension of `path`
/// matches.
///
/// Which part of a path is its file name is for `std::path::Path` to
/// say; for a bare file name the extension is fixed, and [`match_extension`]
/// says what follows from each extension.
pub fn guess_format(path: &str, known_formats: &Vec<String>) -> (r: Option<String>)
    ensures
        exists|extension: Option<Seq<char>>|
            is_extension_of(path@, extension) && text_view(r) == #[trigger] matched_tag(
                extension,
                known_formats.deep_view(),
            ),
{
    let extension = path_extension(path);
    let r = match &extension {
        Some(e) => match_extension(Some(e.as_str()), known_formats),
        None => match_extension(None, known_formats),
    };
    assert(text_view(r) == matched_tag(text_view(extension), known_formats.deep_view()));
    r
}

/// The format of the file at `path`, where its extension is one of the
/// tags that the host recognizes.
pub fn detect_format(path: &str, known_formats: &Vec<String>) -> (r: Option<Format>)
    ensures
        exists|extension: Option<Seq<char>>|
            is_extension_of(path@, extension) && r == format_of(
                #[trigger] matched_tag(extension, known_formats.deep_view()),
            ),
{
    match guess_format(path, known_formats) {
        Some(tag) => Some(tag_format(tag.as_str())),
        None => None,
    }
}

} // verus!
