//! Bringing an older configuration file up to date: the `colors` and `hues`
//! keys of `[visualizer_config]`, no longer used now that palettes come from the
//! device, are taken out of the document, which keeps its comments and layout.
use vstd::prelude::*;
use crate::api::strings_view;
use toml_edit::DocumentMut;

verus! {

#[verifier::external_type_specification]
#[verifier::external_body]
pub struct ExDocumentMut(DocumentMut);

/// The keys that the `[visualizer_config]` table of a document holds, where
/// that item is a table; none where it is missing or of another kind.
pub uninterp spec fn visualizer_keys(doc: DocumentMut) -> Set<Seq<char>>;

/// The text `toml_edit` prints for a document.
pub uninterp spec fn printed_document(doc: DocumentMut) -> Seq<char>;

/// What `toml_edit` parses from a text: nothing where it is not a TOML
/// document, else the keys of its `[visualizer_config]` table (see
/// `visualizer_keys`).
pub uninterp spec fn parsed_visualizer_keys(text: Seq<char>) -> Option<Set<Seq<char>>>;

/// `str::parse` into a `toml_edit::DocumentMut`: the document the text holds,
/// or nothing where it is not TOML. Of the document only the keys of its
/// `[visualizer_config]` table are stated.
#[verifier::external_body]
fn parse_document(text: &str) -> (r: Option<DocumentMut>)
    ensures
        match r {
            Some(d) => parsed_visualizer_keys(text@) == Some(visualizer_keys(d)),
            None => parsed_visualizer_keys(text@) is None,
        },
{
    text.parse::<DocumentMut>().ok()
}

/// `toml_edit`'s `Table::remove` on the `[visualizer_config]` table, reached
/// with `Table::get_mut` and `Item::as_table_mut`: takes `key` out of that table
/// where it holds it, and says whether it did. What else of the printed text
/// changes is not stated.
#[verifier::external_body]
fn remove_visualizer_key(doc: &mut DocumentMut, key: &str) -> (removed: bool)
    ensures
        removed == visualizer_keys(*old(doc)).contains(key@),
        visualizer_keys(*final(doc)) == visualizer_keys(*old(doc)).remove(key@),
{
    doc.get_mut("visualizer_config").and_then(|item| item.as_table_mut()).map_or(false, |t| t.remove(key).is_some())
}

/// `toml_edit`'s `Display` for `DocumentMut`: the document's text.
#[verifier::external_body]
fn document_text(doc: &DocumentMut) -> (r: String)
    ensures
        r@ == printed_document(*doc),
{
    doc.to_string()
}

/// The obsolete keys among the keys of `[visualizer_config]`: `colors`, then
/// `hues`, each where it is present.
pub open spec fn legacy_keys_in(keys: Set<Seq<char>>) -> Seq<Seq<char>> {
    (if keys.contains("colors"@) {
        seq!["colors"@]
    } else {
        seq![]
    }) + (if keys.contains("hues"@) {
        seq!["hues"@]
    } else {
        seq![]
    })
}

/// Takes the obsolete `colors` and `hues` keys out of the `[visualizer_config]`
/// table of a configuration file's text. Nothing where the text is not TOML or
/// holds neither key; else the text of the document without them, and the keys
/// taken out (`colors` before `hues`).
pub fn strip_legacy_keys(text: &str) -> (r: Option<(String, Vec<String>)>)
    ensures
        match parsed_visualizer_keys(text@) {
            None => r is None,
            Some(keys) => if legacy_keys_in(keys).len() == 0 {
                r is None
            } else {
                r matches Some((t, removed)) && strings_view(removed@) == legacy_keys_in(keys)
                    && exists|d: DocumentMut|
                    #[trigger] printed_document(d) == t@ && visualizer_keys(d) == keys.remove(
                        "colors"@,
                    ).remove("hues"@)
            },
        },
{
    let mut doc = match parse_document(text) {
        Some(d) => d,
        None => {
            return None;
        },
    };
    let ghost keys = visualizer_keys(doc);
    proof {
        reveal_strlit("colors");
        reveal_strlit("hues");
        assert("colors"@.len() != "hues"@.len());
    }
    let mut removed: Vec<String> = Vec::new();
    if remove_visualizer_key(&mut doc, "colors") {
        removed.push(String::from_str("colors"));
    }
    assert(strings_view(removed@) =~= (if keys.contains("colors"@) {
        seq!["colors"@]
    } else {
        seq![]
    }));
    assert(visualizer_keys(doc).contains("hues"@) == keys.contains("hues"@));
    let ghost first = removed@;
    if remove_visualizer_key(&mut doc, "hues") {
        removed.push(String::from_str("hues"));
        assert(removed@ == first.push(removed@[removed@.len() - 1]));
    }
    assert(strings_view(removed@) =~= legacy_keys_in(keys));
    if removed.len() == 0 {
        return None;
    }
    let t = document_text(&doc);
    Some((t, removed))
}

} // verus!
