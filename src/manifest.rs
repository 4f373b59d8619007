//! The manifest documents, held as toml_edit documents so that every byte that
//! is not edited (comments, spacing, unrelated keys) survives an edit. What the
//! logic reads of a document is named below; the functions of this module are
//! the only places where a document is read or changed.
use toml_edit::{Document, TomlError};
use vstd::prelude::*;

verus! {

#[verifier::external_type_specification]
#[verifier::external_body]
pub struct ExDocument(Document);

#[verifier::external_type_specification]
#[verifier::external_body]
pub struct ExTomlError(TomlError);

/// Whether toml_edit's parser accepts the text as a document.
pub uninterp spec fn parses(text: Seq<char>) -> bool;

/// The text that the document renders to.
pub uninterp spec fn rendered(d: Document) -> Seq<char>;

/// Whether the document's `workspace` item is a table or an inline table, or
/// is missing (indexing then creates it).
pub uninterp spec fn workspace_table_like(d: Document) -> bool;

/// The keys that the document's `workspace` table holds.
pub uninterp spec fn workspace_keys(d: Document) -> Set<Seq<char>>;

/// The keys of the `workspace` table whose values are arrays, each with the
/// array's slots in order: a slot holding a string value as `Some`, any
/// other slot (another value, or no value at all) as `None`.
pub uninterp spec fn workspace_arrays(d: Document) -> Map<Seq<char>, Seq<Option<Seq<char>>>>;

/// Whether the document has a `[package]` table.
pub uninterp spec fn has_package_table(d: Document) -> bool;

/// The keys of the `[package]` table, each with its value when that is a
/// string and `None` otherwise.
pub uninterp spec fn package_fields(d: Document) -> Map<Seq<char>, Option<Seq<char>>>;

pub open spec fn entries_view(v: Seq<Option<String>>) -> Seq<Option<Seq<char>>> {
    v.map_values(|e: Option<String>| match e {
        Some(s) => Some(s@),
        None => None,
    })
}

/// Relies on `Document: FromStr`, toml_edit's parser.
#[verifier::external_body]
pub(crate) fn parse_document(text: &str) -> (r: Result<Document, TomlError>)
    ensures
        r is Ok <==> parses(text@),
{
    text.parse::<Document>()
}

/// Relies on `Document: Display`: the document's text.
#[verifier::external_body]
pub(crate) fn render(d: &Document) -> (r: String)
    ensures
        r@ == rendered(*d),
{
    d.to_string()
}

/// Relies on `Table::get` and `Item::is_table_like`.
#[verifier::external_body]
pub(crate) fn workspace_is_table_like(d: &Document) -> (r: bool)
    ensures
        r == workspace_table_like(*d),
{
    d.get("workspace").map_or(true, |w| w.is_table_like())
}

/// Relies on `Item::get`, `Item::as_array`, `Array::len`, `Array::get` and
/// `Value::as_str`: the slots of `workspace.<field>` when that is an array.
#[verifier::external_body]
pub(crate) fn workspace_array(d: &Document, field: &str) -> (r: Option<Vec<Option<String>>>)
    ensures
        r is Some <==> workspace_arrays(*d).contains_key(field@),
        r is Some ==> entries_view(r->0@) == workspace_arrays(*d)[field@],
{
    d.get("workspace")
        .and_then(|w| w.get(field))
        .and_then(|f| f.as_array())
        .map(|a| {
            (0..a.len())
                .map(|i| a.get(i).and_then(|v| v.as_str()).map(|s| s.to_owned()))
                .collect()
        })
}

/// Relies on indexing a document and an item by key, `Item::or_insert` and
/// `Item::as_array_mut`: `workspace.<field>` becomes an empty array when it
/// is missing; when it holds something else than an array, nothing changes
/// and the result is `false`.
#[verifier::external_body]
pub(crate) fn ensure_workspace_array(d: &mut Document, field: &str) -> (r: bool)
    requires
        workspace_table_like(*old(d)),
    ensures
        r == (!workspace_keys(*old(d)).contains(field@) || workspace_arrays(*old(d)).contains_key(
            field@,
        )),
        workspace_table_like(*final(d)),
        !r ==> *final(d) == *old(d),
        workspace_arrays(*old(d)).contains_key(field@) ==> *final(d) == *old(d),
        r ==> workspace_keys(*final(d)) == workspace_keys(*old(d)).insert(field@),
        r ==> workspace_arrays(*final(d)) == (if workspace_arrays(*old(d)).contains_key(field@) {
            workspace_arrays(*old(d))
        } else {
            workspace_arrays(*old(d)).insert(field@, Seq::empty())
        }),
{
    d["workspace"][field]
        .or_insert(toml_edit::value(toml_edit::Array::new()))
        .as_array_mut()
        .is_some()
}

/// Relies on `Array::push`: the string is appended to `workspace.<field>`.
#[verifier::external_body]
pub(crate) fn push_workspace_entry(d: &mut Document, field: &str, entry: &str)
    requires
        workspace_table_like(*old(d)),
        workspace_arrays(*old(d)).contains_key(field@),
    ensures
        workspace_table_like(*final(d)),
        workspace_keys(*final(d)) == workspace_keys(*old(d)),
        workspace_arrays(*final(d)) == workspace_arrays(*old(d)).insert(
            field@,
            workspace_arrays(*old(d))[field@].push(Some(entry@)),
        ),
{
    if let Some(a) = d["workspace"][field].as_array_mut() {
        a.push(entry);
    }
}

/// Relies on `Array::remove`: slot `i` of `workspace.<field>`, which holds a
/// string value, is dropped and the slots after it move down.
#[verifier::external_body]
pub(crate) fn remove_workspace_entry(d: &mut Document, field: &str, i: usize)
    requires
        workspace_table_like(*old(d)),
        workspace_arrays(*old(d)).contains_key(field@),
        i < workspace_arrays(*old(d))[field@].len(),
        workspace_arrays(*old(d))[field@][i as int] is Some,
    ensures
        workspace_table_like(*final(d)),
        workspace_keys(*final(d)) == workspace_keys(*old(d)),
        workspace_arrays(*final(d)) == workspace_arrays(*old(d)).insert(
            field@,
            workspace_arrays(*old(d))[field@].remove(i as int),
        ),
{
    if let Some(a) = d["workspace"][field].as_array_mut() {
        a.remove(i);
    }
}

/// Relies on `Table::get` and `Item::is_table`.
#[verifier::external_body]
pub(crate) fn package_is_table(d: &Document) -> (r: bool)
    ensures
        r == has_package_table(*d),
{
    d.get("package").map_or(false, |p| p.is_table())
}

/// Relies on `Table::remove`: `package.<key>` is dropped.
#[verifier::external_body]
pub(crate) fn remove_package_field(d: &mut Document, key: &str)
    requires
        has_package_table(*old(d)),
    ensures
        has_package_table(*final(d)),
        package_fields(*final(d)) == package_fields(*old(d)).remove(key@),
{
    if let Some(p) = d["package"].as_table_mut() {
        p.remove(key);
    }
}

/// Relies on indexing an item by key and `toml_edit::value`: `package.<key>`
/// is set to the string.
#[verifier::external_body]
pub(crate) fn set_package_string(d: &mut Document, key: &str, value: &str)
    requires
        has_package_table(*old(d)),
    ensures
        has_package_table(*final(d)),
        package_fields(*final(d)) == package_fields(*old(d)).insert(key@, Some(value@)),
{
    d["package"][key] = toml_edit::value(value);
}

} // verus!
