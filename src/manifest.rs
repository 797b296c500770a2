//! Normalisation of generated manifests: a manifest is parsed as a TOML
//! document, laid out canonically, and its runs of blank lines collapsed.

use vstd::prelude::*;
use crate::text::{collapse_blank_lines, lemma_collapse_idempotent, no_triple_newline, remove_triple_newlines};

verus! {

/// Whether `text` parses as a TOML document.
pub uninterp spec fn is_toml_document(text: Seq<char>) -> bool;

/// The canonical rendering of a TOML document's text: the document parsed,
/// its top-level table laid out canonically, and written back out.
pub uninterp spec fn canonical_toml(text: Seq<char>) -> Seq<char>;

/// Relies on toml_edit's `FromStr` for `Document` (fails exactly on text
/// that is not valid TOML), `Table::fmt` (canonical layout) and `Display`
/// for `Document`: the result depends on the text alone.
#[verifier::external_body]
fn canonical_text(text: &str) -> (r: Option<String>)
    ensures
        r is Some == is_toml_document(text@),
        r matches Some(s) ==> s@ == canonical_toml(text@),
{
    let mut doc = text.parse::<toml_edit::Document>().ok()?;
    doc.as_table_mut().fmt();
    Some(doc.to_string())
}

/// Failures of manifest normalisation.
#[derive(Clone, Copy, Debug, PartialEq, Eq, Structural)]
pub enum ManifestError {
    /// The manifest is not a valid TOML document.
    Invalid,
}

/// Normalises a manifest: parses it, lays it out canonically, and collapses
/// its runs of blank lines. Fails exactly when the text is not valid TOML.
pub fn format_manifest(text: &str) -> (r: Result<String, ManifestError>)
    ensures
        r is Err <==> !is_toml_document(text@),
        r matches Ok(s) ==> s@ == collapse_blank_lines(canonical_toml(text@)),
        r matches Ok(s) ==> no_triple_newline(s@),
{
    match canonical_text(text) {
        None => Err(ManifestError::Invalid),
        Some(rendered) => {
            let s = remove_triple_newlines(rendered.as_str());
            proof {
                lemma_collapse_idempotent(rendered@);
            }
            Ok(s)
        },
    }
}

} // verus!
