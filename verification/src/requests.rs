use vstd::prelude::*;

use crate::edit::{spec_document_url, url_path, DocumentKey, DocumentKeyError};
use crate::paths::is_platform_separator;
use crate::text::{concat, owned, str_eq};

verus! {

/// The completions offered after a cleaned word, if any.
pub open spec fn spec_completion_labels(word: Seq<char>) -> Option<Seq<Seq<char>>> {
    if word == "_."@ {
        Some(seq!["role(\"system\")"@, "role(\"assistant\")"@, "role(\"user\")"@])
    } else if word == "ctx."@ {
        Some(seq!["output_format"@, "client"@])
    } else if word == "ctx.client."@ {
        Some(seq!["name"@, "provider"@])
    } else {
        None
    }
}

/// Completion requests.
pub struct Completion;

impl Completion {
    /// The labels of the completions offered after the cleaned word `word`:
    /// the roles after `_.`, the context's fields after `ctx.`, the client's
    /// fields after `ctx.client.`, and nothing after any other word.
    pub fn labels(word: &str) -> (r: Option<Vec<&'static str>>)
        ensures
            match spec_completion_labels(word@) {
                Some(labels) => r is Some && r->0@.map_values(|l: &str| l@) == labels,
                None => r is None,
            },
    {
        if str_eq(word, "_.") {
            let v = vec!["role(\"system\")", "role(\"assistant\")", "role(\"user\")"];
            assert(v@.map_values(|l: &str| l@) =~= seq!["role(\"system\")"@, "role(\"assistant\")"@, "role(\"user\")"@]);
            Some(v)
        } else if str_eq(word, "ctx.") {
            let v = vec!["output_format", "client"];
            assert(v@.map_values(|l: &str| l@) =~= seq!["output_format"@, "client"@]);
            Some(v)
        } else if str_eq(word, "ctx.client.") {
            let v = vec!["name", "provider"];
            assert(v@.map_values(|l: &str| l@) =~= seq!["name"@, "provider"@]);
            Some(v)
        } else {
            None
        }
    }
}

/// Notifications that a text document was saved.
pub struct DidSaveTextDocument;

impl DidSaveTextDocument {
    /// The message shown when the client code was generated with the
    /// installed `baml-cli` of version `cli_version`.
    pub fn generated_message(cli_version: &str) -> (r: String)
        ensures
            r@ == "BAML: Client generated! (Using installed baml-cli "@ + cli_version@ + ")"@,
    {
        let head = concat("BAML: Client generated! (Using installed baml-cli ", cli_version);
        concat(head.as_str(), ")")
    }

    /// The message shown when generating the client code failed with `error`.
    pub fn generation_error_message(error: &str) -> (r: String)
        ensures
            r@ == "Error generating: "@ + error@,
    {
        concat("Error generating: ", error)
    }
}

/// The document that a hover request is answered from.
#[derive(Debug)]
pub struct HoverDocument {
    pub uri: String,
    pub language_id: String,
    pub text: String,
    pub version: i32,
}

/// Hover requests.
pub struct Hover;

impl Hover {
    /// The BAML document at `uri` with the project's `contents` for it, at
    /// version 1; when the project holds no such file, the message that says
    /// so.
    pub fn document(uri: &str, contents: Option<&String>) -> (r: Result<HoverDocument, String>)
        ensures
            match contents {
                Some(text) => r matches Ok(d) && d.uri@ == uri@ && d.language_id@ == "BAML"@ && d.text@ == text@
                    && d.version == 1,
                None => r matches Err(m) && m@ == "File "@ + uri@ + " was not present in the project"@,
            },
    {
        match contents {
            Some(text) => Ok(HoverDocument {
                uri: owned(uri),
                language_id: owned("BAML"),
                text: text.clone(),
                version: 1,
            }),
            None => {
                let head = concat("File ", uri);
                Err(concat(head.as_str(), " was not present in the project"))
            },
        }
    }
}

/// Notifications that a text document was closed.
pub struct DidCloseTextDocument;

impl DidCloseTextDocument {
    /// The key of the document at `uri` to close: none when there is no
    /// project, else the key made from the URL in the project rooted at
    /// `project_root`.
    pub fn key_to_close(project_root: Option<&str>, uri: &str) -> (r: Result<Option<DocumentKey>, DocumentKeyError>)
        ensures
            match project_root {
                None => r == Ok::<Option<DocumentKey>, DocumentKeyError>(None),
                Some(root) => match url_path(uri@) {
                    Some(p) => exists|separator: Seq<char>| is_platform_separator(separator) && match spec_document_url(root@, p, separator) {
                        Some(u) => r matches Ok(Some(key)) && key@ == u,
                        None => r == Err::<Option<DocumentKey>, DocumentKeyError>(DocumentKeyError::PathToUrl),
                    },
                    None => r == Err::<Option<DocumentKey>, DocumentKeyError>(DocumentKeyError::InvalidUrl),
                },
            },
    {
        match project_root {
            None => Ok(None),
            Some(root) => match DocumentKey::from_url(root, uri) {
                Ok(key) => Ok(Some(key)),
                Err(e) => Err(e),
            },
        }
    }
}

} // verus!
