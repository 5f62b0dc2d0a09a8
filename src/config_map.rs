//! The ordered maps that hold a configuration document, and what this
//! library relies on of them.

use indexmap::IndexMap;
use vstd::prelude::*;

verus! {

#[verifier::external_type_specification]
#[verifier::external_body]
#[verifier::reject_recursive_types(K)]
#[verifier::reject_recursive_types(V)]
#[verifier::reject_recursive_types(S)]
pub struct ExIndexMap<K, V, S>(IndexMap<K, V, S>);

/// The keys and values of one section, in order.
pub type Section = IndexMap<String, Option<String>>;

/// A configuration document: section names, in order, each with its section.
pub type Document = IndexMap<String, Section>;

/// An entry of a section, as plain values.
pub type EntryView = (Seq<char>, Option<Seq<char>>);

/// A section of a document, as plain values.
pub type SectionView = (Seq<char>, Seq<EntryView>);

/// What a section holds: its entries in the map's order.
pub uninterp spec fn section_entries(m: Section) -> Seq<EntryView>;

/// What a document holds: its sections in the map's order.
pub uninterp spec fn document_sections(m: Document) -> Seq<SectionView>;

pub open spec fn opt_view(v: Option<String>) -> Option<Seq<char>> {
    match v {
        Some(s) => Some(s@),
        None => None,
    }
}

/// The names of the sections of `d`, in order.
pub open spec fn section_names(d: Seq<SectionView>) -> Seq<Seq<char>> {
    d.map_values(|e: SectionView| e.0)
}

/// The keys of the entries of `s`, in order.
pub open spec fn entry_keys(s: Seq<EntryView>) -> Seq<Seq<char>> {
    s.map_values(|e: EntryView| e.0)
}

/// Whether a section is named otherwise than `name`.
pub open spec fn named_otherwise(name: Seq<char>) -> spec_fn(SectionView) -> bool {
    |e: SectionView| e.0 != name
}

/// `d` without the section named `name`.
pub open spec fn without_section(d: Seq<SectionView>, name: Seq<char>) -> Seq<SectionView> {
    d.filter(named_otherwise(name))
}

/// Relies on IndexMap::new: a new map is empty.
#[verifier::external_body]
pub(crate) fn new_section() -> (r: Section)
    ensures
        section_entries(r) == Seq::<EntryView>::empty(),
{
    IndexMap::new()
}

/// Relies on IndexMap::insert: a key that is not there yet goes last, with
/// its value; one that is there keeps its place and takes the new value.
#[verifier::external_body]
pub(crate) fn section_insert(m: &mut Section, key: String, value: Option<String>)
    ensures
        !entry_keys(section_entries(*old(m))).contains(key@) ==> section_entries(*final(m))
            == section_entries(*old(m)).push((key@, opt_view(value))),
        forall|i: int|
            0 <= i < section_entries(*old(m)).len() && #[trigger] section_entries(*old(m))[i].0
                == key@ ==> section_entries(*final(m)) == section_entries(*old(m)).update(
                i,
                (key@, opt_view(value)),
            ),
{
    m.insert(key, value);
}

/// Relies on IndexMap::shift_remove: the section of that name leaves, and the
/// others keep their order.
#[verifier::external_body]
pub(crate) fn document_remove(m: &mut Document, name: &String)
    ensures
        document_sections(*final(m)) == without_section(document_sections(*old(m)), name@),
{
    m.shift_remove(name);
}

/// `d` without the sections whose names start with `marker`.
pub open spec fn without_marked(d: Seq<SectionView>, marker: Seq<char>) -> Seq<SectionView> {
    d.filter(|e: SectionView| !marker.is_prefix_of(e.0))
}

/// Relies on IndexMap::retain: the sections whose names start with `marker`
/// leave, and the others keep their order. The closure only calls
/// `crate::text::keeps_name`, which is verified.
#[verifier::external_body]
pub(crate) fn document_drop_marked(m: &mut Document, marker: &str)
    ensures
        document_sections(*final(m)) == without_marked(document_sections(*old(m)), marker@),
{
    m.retain(|name, _| crate::text::keeps_name(name, marker));
}

/// Relies on IndexMap::insert: a section name that is not there yet goes
/// last, with its section; one that is there keeps its place and takes the
/// new section.
#[verifier::external_body]
pub(crate) fn document_insert(m: &mut Document, name: String, section: Section)
    ensures
        !section_names(document_sections(*old(m))).contains(name@) ==> document_sections(
            *final(m),
        ) == document_sections(*old(m)).push((name@, section_entries(section))),
        forall|i: int|
            0 <= i < document_sections(*old(m)).len() && #[trigger] document_sections(
                *old(m),
            )[i].0 == name@ ==> document_sections(*final(m)) == document_sections(
                *old(m),
            ).update(i, (name@, section_entries(section))),
{
    m.insert(name, section);
}

} // verus!
