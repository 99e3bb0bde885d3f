use core::cmp::Ordering;
use vstd::prelude::*;
use vstd::std_specs::cmp::PartialOrdSpec;

use crate::paths::{
    is_platform_separator, joined_path, main_separator, or_default, path_join, path_strip_prefix,
    stripped_path,
};
use crate::text::{owned, spec_strip_prefix, starts_with, str_eq, strip_prefix};

verus! {

/// A supported text encoding of character offsets, as negotiated with an LSP
/// client. Listed from least to greatest priority.
#[derive(Debug, Copy, Clone, PartialEq, Eq, Structural, Ord)]
pub enum PositionEncoding {
    /// UTF-16 is the encoding supported by all LSP clients.
    UTF16,
    /// Second choice: UTF-32 uses a fixed four bytes per character.
    UTF32,
    /// The preferred encoding.
    UTF8,
}

/// The rank of an encoding, from least to greatest priority.
pub open spec fn encoding_priority(e: PositionEncoding) -> int {
    match e {
        PositionEncoding::UTF16 => 0,
        PositionEncoding::UTF32 => 1,
        PositionEncoding::UTF8 => 2,
    }
}

/// How two encodings compare by priority.
pub open spec fn encoding_order(a: PositionEncoding, b: PositionEncoding) -> Ordering {
    if encoding_priority(a) < encoding_priority(b) {
        Ordering::Less
    } else if encoding_priority(a) == encoding_priority(b) {
        Ordering::Equal
    } else {
        Ordering::Greater
    }
}

impl PositionEncoding {
    /// The rank of the encoding, from least to greatest priority.
    fn priority(&self) -> (r: u8)
        ensures
            r == encoding_priority(*self),
    {
        match self {
            PositionEncoding::UTF16 => 0,
            PositionEncoding::UTF32 => 1,
            PositionEncoding::UTF8 => 2,
        }
    }
}

impl PartialOrd for PositionEncoding {
    /// Encodings are ordered by priority: UTF-16, then UTF-32, then UTF-8.
    fn partial_cmp(&self, other: &Self) -> (r: Option<Ordering>) {
        let a = self.priority();
        let b = other.priority();
        if a < b {
            Some(Ordering::Less)
        } else if a == b {
            Some(Ordering::Equal)
        } else {
            Some(Ordering::Greater)
        }
    }
}

impl vstd::std_specs::cmp::PartialOrdSpecImpl for PositionEncoding {
    open spec fn obeys_partial_cmp_spec() -> bool {
        true
    }

    open spec fn partial_cmp_spec(&self, other: &Self) -> Option<Ordering> {
        Some(encoding_order(*self, *other))
    }
}

/// The encodings rank from least to greatest priority as UTF-16, UTF-32,
/// UTF-8, and an encoding is preferred over another exactly when it ranks
/// higher.
pub proof fn lemma_priority_order(a: PositionEncoding, b: PositionEncoding)
    ensures
        encoding_priority(PositionEncoding::UTF16) < encoding_priority(PositionEncoding::UTF32),
        encoding_priority(PositionEncoding::UTF32) < encoding_priority(PositionEncoding::UTF8),
        PartialOrdSpec::partial_cmp_spec(&a, &b) == Some(Ordering::Less) <==> encoding_priority(a) < encoding_priority(b),
        PartialOrdSpec::partial_cmp_spec(&a, &b) == Some(Ordering::Equal) <==> a == b,
{
}

impl Default for PositionEncoding {
    /// UTF-16, the encoding that every client supports.
    fn default() -> (r: Self)
        ensures
            r == PositionEncoding::UTF16,
    {
        PositionEncoding::UTF16
    }
}

/// The name by which the LSP protocol knows an encoding.
pub open spec fn encoding_kind_name(e: PositionEncoding) -> Seq<char> {
    match e {
        PositionEncoding::UTF8 => "utf-8"@,
        PositionEncoding::UTF16 => "utf-16"@,
        PositionEncoding::UTF32 => "utf-32"@,
    }
}

/// The encoding that the LSP protocol knows by `name`, if any.
pub open spec fn encoding_of_kind_name(name: Seq<char>) -> Option<PositionEncoding> {
    if name == "utf-8"@ {
        Some(PositionEncoding::UTF8)
    } else if name == "utf-16"@ {
        Some(PositionEncoding::UTF16)
    } else if name == "utf-32"@ {
        Some(PositionEncoding::UTF32)
    } else {
        None
    }
}

/// The LSP protocol's name of an encoding, `lsp_types::PositionEncodingKind`;
/// opaque here.
#[verifier::external_type_specification]
#[verifier::external_body]
pub struct ExPositionEncodingKind(lsp_types::PositionEncodingKind);

/// The protocol name that an `lsp_types::PositionEncodingKind` holds.
pub uninterp spec fn kind_text(kind: lsp_types::PositionEncodingKind) -> Seq<char>;

/// Builds an `lsp_types::PositionEncodingKind` with `PositionEncodingKind::new`,
/// which stores `name` as the kind's name.
#[verifier::external_body]
fn new_position_encoding_kind(name: &'static str) -> (r: lsp_types::PositionEncodingKind)
    ensures
        kind_text(r) == name@,
{
    lsp_types::PositionEncodingKind::new(name)
}

/// Reads the protocol name of an `lsp_types::PositionEncodingKind` with
/// `PositionEncodingKind::as_str`, which returns the name the kind holds.
#[verifier::external_body]
fn position_encoding_kind_name(kind: &lsp_types::PositionEncodingKind) -> (r: &str)
    ensures
        r@ == kind_text(*kind),
{
    kind.as_str()
}

impl PositionEncoding {
    /// The name by which the LSP protocol knows the encoding.
    pub fn kind_name(self) -> (r: &'static str)
        ensures
            r@ == encoding_kind_name(self),
    {
        match self {
            PositionEncoding::UTF8 => "utf-8",
            PositionEncoding::UTF16 => "utf-16",
            PositionEncoding::UTF32 => "utf-32",
        }
    }

    /// The encoding that the LSP protocol knows by `name`; `Err(())` for any
    /// other name.
    pub fn from_kind_name(name: &str) -> (r: Result<PositionEncoding, ()>)
        ensures
            match encoding_of_kind_name(name@) {
                Some(e) => r == Ok::<PositionEncoding, ()>(e),
                None => r is Err,
            },
    {
        if str_eq(name, "utf-8") {
            Ok(PositionEncoding::UTF8)
        } else if str_eq(name, "utf-16") {
            Ok(PositionEncoding::UTF16)
        } else if str_eq(name, "utf-32") {
            Ok(PositionEncoding::UTF32)
        } else {
            Err(())
        }
    }

    /// The `lsp_types::PositionEncodingKind` of the encoding: the kind built
    /// from the encoding's protocol name.
    pub fn to_kind(self) -> (r: lsp_types::PositionEncodingKind)
        ensures
            kind_text(r) == encoding_kind_name(self),
    {
        new_position_encoding_kind(self.kind_name())
    }

    /// The encoding of an `lsp_types::PositionEncodingKind`: the encoding
    /// whose protocol name the kind holds, `Err(())` when no encoding has it
    /// (as [`PositionEncoding::from_kind_name`] decides for that name).
    pub fn try_from_kind(kind: &lsp_types::PositionEncodingKind) -> (r: Result<PositionEncoding, ()>)
        ensures
            match encoding_of_kind_name(kind_text(*kind)) {
                Some(e) => r == Ok::<PositionEncoding, ()>(e),
                None => r is Err,
            },
    {
        let name = position_encoding_kind_name(kind);
        Self::from_kind_name(name)
    }
}

/// Reading back the name of an encoding gives the encoding.
pub proof fn lemma_kind_name_round_trip(e: PositionEncoding)
    ensures
        encoding_of_kind_name(encoding_kind_name(e)) == Some(e),
{
    reveal_strlit("utf-8");
    reveal_strlit("utf-16");
    reveal_strlit("utf-32");
    assert("utf-16"@.len() != "utf-8"@.len());
    assert("utf-32"@.len() != "utf-8"@.len());
    assert("utf-32"@[4] != "utf-16"@[4]);
}


/// What `url::Url::from_file_path` gives for `path`, as the URL's text, or
/// nothing when it refuses the path.
pub uninterp spec fn file_path_url(path: Seq<char>) -> Option<Seq<char>>;

/// Whether `std::path::Path::is_absolute` holds of `path`.
pub uninterp spec fn path_is_absolute(path: Seq<char>) -> bool;

/// The path of the URL that `url::Url::parse` reads from `url`, as given by
/// `Url::path`, or nothing when `url` does not parse.
pub uninterp spec fn url_path(url: Seq<char>) -> Option<Seq<char>>;

/// Calls `url::Url::from_file_path` (through `lsp_types::Url`) and takes the
/// URL's text. The crate's source builds that text from `"file://"` followed
/// by the path's components, and refuses every path that is not absolute
/// (`Path::is_absolute`). On Windows it refuses some absolute paths too, so
/// success on absolute paths is not stated; the result is otherwise only
/// named.
#[verifier::external_body]
pub(crate) fn url_from_file_path(path: &str) -> (r: Option<String>)
    ensures
        match r {
            Some(u) => file_path_url(path@) == Some(u@) && "file://"@.is_prefix_of(u@) && path_is_absolute(path@),
            None => file_path_url(path@) is None,
        },
{
    lsp_types::Url::from_file_path(path).ok().map(|u| u.to_string())
}

/// Calls `url::Url::parse` (through `lsp_types::Url`) and takes the parsed
/// URL's path with `Url::path`. The result is only named.
#[verifier::external_body]
fn parse_url_path(url: &str) -> (r: Option<String>)
    ensures
        match r {
            Some(p) => url_path(url@) == Some(p@),
            None => url_path(url@) is None,
        },
{
    lsp_types::Url::parse(url).ok().map(|u| u.path().to_string())
}

/// Why a document key could not be made.
#[derive(Debug, Copy, Clone, PartialEq, Eq, Structural)]
pub enum DocumentKeyError {
    /// The absolute path could not be converted to a URL.
    PathToUrl,
    /// The URL could not be read.
    InvalidUrl,
}

/// A unique document ID, derived from a URL passed as part of an LSP request:
/// the `file://` URL of the document's absolute path.
#[derive(Debug, PartialEq, Eq, Hash)]
pub struct DocumentKey {
    url: String,
}

impl View for DocumentKey {
    type V = Seq<char>;

    closed spec fn view(&self) -> Seq<char> {
        self.url@
    }
}

/// The URL of the document at `file_path` in the project rooted at
/// `root_path`, with the path separator `separator`: a leading `file://` is
/// removed from the file's path, which is then made relative by removing the
/// root and then a leading separator (each where present), joined to the
/// root, and converted to a `file://` URL.
pub open spec fn spec_document_url(root_path: Seq<char>, file_path: Seq<char>, separator: Seq<char>) -> Option<Seq<char>> {
    let path = or_default(spec_strip_prefix(file_path, "file://"@), file_path);
    let relative = or_default(stripped_path(path, root_path), path);
    let relative = or_default(stripped_path(relative, separator), relative);
    file_path_url(joined_path(root_path, relative))
}

impl Clone for DocumentKey {
    /// A key with the same URL.
    fn clone(&self) -> (r: Self)
        ensures
            r@ == self@,
    {
        proof {
            use_type_invariant(self);
        }
        DocumentKey { url: self.url.clone() }
    }
}

impl DocumentKey {
    /// Every key holds a `file://` URL.
    #[verifier::type_invariant]
    spec fn well_formed(self) -> bool {
        "file://"@.is_prefix_of(self.url@)
    }

    /// The key of a document whose `file://` URL is `url`; none for a text
    /// that is no `file://` URL.
    pub fn from_file_url(url: &str) -> (r: Option<Self>)
        ensures
            match r {
                Some(key) => "file://"@.is_prefix_of(url@) && key@ == url@,
                None => !"file://"@.is_prefix_of(url@),
            },
    {
        if starts_with(url, "file://") {
            Some(DocumentKey { url: owned(url) })
        } else {
            None
        }
    }

    /// The URL associated with the key.
    pub fn url(&self) -> (r: &str)
        ensures
            r@ == self@,
            "file://"@.is_prefix_of(r@),
    {
        proof {
            use_type_invariant(self);
        }
        self.url.as_str()
    }

    /// Makes the key of the document at `file_path` in the project rooted at
    /// `root_path`, given the platform's path separator `separator`.
    pub fn from_path_with_separator(root_path: &str, file_path: &str, separator: &str) -> (r: Result<Self, DocumentKeyError>)
        ensures
            match spec_document_url(root_path@, file_path@, separator@) {
                Some(u) => r matches Ok(key) && key@ == u,
                None => r == Err::<Self, DocumentKeyError>(DocumentKeyError::PathToUrl),
            },
            r matches Ok(key) ==> "file://"@.is_prefix_of(key@),
    {
        let path = match strip_prefix(file_path, "file://") {
            Some(rest) => rest,
            None => file_path,
        };
        let relative_path = match path_strip_prefix(path, root_path) {
            Some(rest) => rest,
            None => owned(path),
        };
        let relative_path = match path_strip_prefix(relative_path.as_str(), separator) {
            Some(rest) => rest,
            None => relative_path,
        };
        let absolute_path = path_join(root_path, relative_path.as_str());
        match url_from_file_path(absolute_path.as_str()) {
            Some(url) => Ok(DocumentKey { url }),
            None => Err(DocumentKeyError::PathToUrl),
        }
    }

    /// Makes a key from any path that an LSP client delivers, such as
    /// `file:///Users/someone/baml_src/test.baml`,
    /// `/Users/someone/baml_src/test.baml`, `test.baml` or `/test.baml`: each
    /// becomes a `file://` URL with an absolute path under `root_path`.
    pub fn from_path(root_path: &str, file_path: &str) -> (r: Result<Self, DocumentKeyError>)
        ensures
            exists|separator: Seq<char>| is_platform_separator(separator) && match spec_document_url(root_path@, file_path@, separator) {
                Some(u) => r matches Ok(key) && key@ == u,
                None => r == Err::<Self, DocumentKeyError>(DocumentKeyError::PathToUrl),
            },
            r matches Ok(key) ==> "file://"@.is_prefix_of(key@),
    {
        let separator = main_separator();
        Self::from_path_with_separator(root_path, file_path, separator)
    }

    /// Makes a key from a URL that an LSP client delivers, given the
    /// platform's path separator `separator`: the key that
    /// [`DocumentKey::from_path_with_separator`] makes from the URL's path.
    pub fn from_url_with_separator(root_path: &str, url: &str, separator: &str) -> (r: Result<Self, DocumentKeyError>)
        ensures
            match url_path(url@) {
                Some(p) => match spec_document_url(root_path@, p, separator@) {
                    Some(u) => r matches Ok(key) && key@ == u,
                    None => r == Err::<Self, DocumentKeyError>(DocumentKeyError::PathToUrl),
                },
                None => r == Err::<Self, DocumentKeyError>(DocumentKeyError::InvalidUrl),
            },
    {
        match parse_url_path(url) {
            Some(path) => Self::from_path_with_separator(root_path, path.as_str(), separator),
            None => Err(DocumentKeyError::InvalidUrl),
        }
    }

    /// Makes a key from a URL that an LSP client delivers, in the same way as
    /// [`DocumentKey::from_path`] does from the URL's path.
    pub fn from_url(root_path: &str, url: &str) -> (r: Result<Self, DocumentKeyError>)
        ensures
            match url_path(url@) {
                Some(p) => exists|separator: Seq<char>| is_platform_separator(separator) && match spec_document_url(root_path@, p, separator) {
                    Some(u) => r matches Ok(key) && key@ == u,
                    None => r == Err::<Self, DocumentKeyError>(DocumentKeyError::PathToUrl),
                },
                None => r == Err::<Self, DocumentKeyError>(DocumentKeyError::InvalidUrl),
            },
    {
        let separator = main_separator();
        Self::from_url_with_separator(root_path, url, separator)
    }
}

} // verus!
