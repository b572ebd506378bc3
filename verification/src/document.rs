//! The section-keyed `key=value` documents that hold the configuration and
//! the credentials, as the `ini` crate reads, edits and writes them.
//!
//! A document is modelled as the sequence of its sections in the order in
//! which they are walked; a section is its name (`None` for the properties
//! that precede the first header) and its properties in order.

use ini::EscapePolicy;
use ini::Ini;
use ini::LineSeparator;
use ini::ParseError;
use ini::WriteOption;
use vstd::prelude::*;

verus! {

/// The properties of one section, in order: key and value.
pub type PropertiesModel = Seq<(Seq<char>, Seq<char>)>;

/// One section: its name and its properties.
pub type SectionModel = (Option<Seq<char>>, Seq<(Seq<char>, Seq<char>)>);

/// A whole document: its sections in order.
pub type DocumentModel = Seq<(Option<Seq<char>>, Seq<(Seq<char>, Seq<char>)>)>;

/// `ini::Ini`, carried through verified code as an opaque value.
#[verifier::external_type_specification]
#[verifier::external_body]
pub struct ExIni(Ini);

/// `ini::ParseError`, carried through verified code as an opaque value.
#[verifier::external_type_specification]
#[verifier::external_body]
pub struct ExParseError(ParseError);

/// What an `Ini` holds: the sections that `Ini::iter` walks, each with the
/// properties that `Properties::iter` walks, in that order.
pub uninterp spec fn ini_sections(doc: Ini) -> Seq<(Option<Seq<char>>, Seq<(Seq<char>, Seq<char>)>)>;

/// What `Ini::load_from_str` makes of a text: the sections of the document
/// it returns, or `None` where it reports a parse error.
pub uninterp spec fn ini_parse(text: Seq<char>) -> Option<Seq<(Option<Seq<char>>, Seq<(Seq<char>, Seq<char>)>)>>;

/// The text that `Ini::write_to_opt` writes for a document with these
/// sections, with the basic escape policy and `"\n"` between lines.
pub uninterp spec fn ini_text(sections: Seq<(Option<Seq<char>>, Seq<(Seq<char>, Seq<char>)>)>) -> Seq<char>;

/// One property of a section, as plain values.
#[derive(Debug)]
pub struct Property {
    pub key: String,
    pub value: String,
}

/// One section of a document, as plain values.
#[derive(Debug)]
pub struct Section {
    /// The section's name; `None` for the properties before the first header.
    pub name: Option<String>,
    /// The section's properties, in order.
    pub properties: Vec<Property>,
}

impl View for Property {
    type V = (Seq<char>, Seq<char>);

    open spec fn view(&self) -> (Seq<char>, Seq<char>) {
        (self.key@, self.value@)
    }
}

/// The model of a list of properties.
pub open spec fn properties_model(properties: Seq<Property>) -> PropertiesModel {
    Seq::new(properties.len(), |i: int| properties[i]@)
}

impl View for Section {
    type V = SectionModel;

    open spec fn view(&self) -> SectionModel {
        (
            match self.name {
                Some(n) => Some(n@),
                None => None,
            },
            properties_model(self.properties@),
        )
    }
}

/// The model of a list of sections.
pub open spec fn document_model(sections: Seq<Section>) -> DocumentModel {
    Seq::new(sections.len(), |i: int| sections[i]@)
}

/// The index of the first section at or after `from` that is named `name`,
/// or the document's length where there is none.
pub open spec fn section_index_from(doc: DocumentModel, name: Option<Seq<char>>, from: int) -> int
    decreases doc.len() - from,
{
    if from < 0 || from >= doc.len() {
        doc.len() as int
    } else if doc[from].0 == name {
        from
    } else {
        section_index_from(doc, name, from + 1)
    }
}

/// The index of the first section named `name`, or the document's length.
pub open spec fn section_index(doc: DocumentModel, name: Option<Seq<char>>) -> int {
    section_index_from(doc, name, 0)
}

/// Whether the document has a section named `name`.
pub open spec fn has_section(doc: DocumentModel, name: Option<Seq<char>>) -> bool {
    section_index(doc, name) < doc.len()
}

/// The index of the first property at or after `from` whose key is `key`,
/// or the number of properties where there is none.
pub open spec fn property_index_from(properties: PropertiesModel, key: Seq<char>, from: int) -> int
    decreases properties.len() - from,
{
    if from < 0 || from >= properties.len() {
        properties.len() as int
    } else if properties[from].0 == key {
        from
    } else {
        property_index_from(properties, key, from + 1)
    }
}

/// Whether some property has the key `key`.
pub open spec fn has_property(properties: PropertiesModel, key: Seq<char>) -> bool {
    property_index_from(properties, key, 0) < properties.len()
}

/// The value of the first property whose key is `key`.
pub open spec fn property_value(properties: PropertiesModel, key: Seq<char>) -> Option<Seq<char>> {
    let i = property_index_from(properties, key, 0);
    if i < properties.len() {
        Some(properties[i].1)
    } else {
        None
    }
}

/// The test that a property's key is not `key`.
pub open spec fn has_other_key(key: Seq<char>) -> spec_fn((Seq<char>, Seq<char>)) -> bool {
    |p: (Seq<char>, Seq<char>)| p.0 != key
}

/// The properties after `key` is set to `value`: every earlier property
/// with that key leaves, and the new one comes last.
pub open spec fn properties_with(properties: PropertiesModel, key: Seq<char>, value: Seq<char>) -> PropertiesModel {
    properties.filter(has_other_key(key)).push((key, value))
}

/// The document after `key` is set to `value` in the section `name`: in the
/// first section of that name where there is one, else in a new section at
/// the end. Nothing else changes.
pub open spec fn document_with(doc: DocumentModel, name: Seq<char>, key: Seq<char>, value: Seq<char>) -> DocumentModel {
    let i = section_index(doc, Some(name));
    if i < doc.len() {
        doc.update(i, (doc[i].0, properties_with(doc[i].1, key, value)))
    } else {
        doc.push((Some(name), properties_with(Seq::empty(), key, value)))
    }
}

/// What [`section_index_from`] finds: a section of that name with none
/// before it, or the end with no section of that name at or after `from`.
pub proof fn lemma_section_index_from(doc: DocumentModel, name: Option<Seq<char>>, from: int)
    requires
        0 <= from <= doc.len(),
    ensures
        from <= section_index_from(doc, name, from) <= doc.len(),
        section_index_from(doc, name, from) < doc.len() ==> doc[section_index_from(doc, name, from)].0
            == name,
        forall|k: int| from <= k < section_index_from(doc, name, from) ==> doc[k].0 != name,
    decreases doc.len() - from,
{
    if from < doc.len() && doc[from].0 != name {
        lemma_section_index_from(doc, name, from + 1);
    }
}

/// What [`property_index_from`] finds: a property with that key and none
/// before it, or the end with no such property at or after `from`.
pub proof fn lemma_property_index_from(properties: PropertiesModel, key: Seq<char>, from: int)
    requires
        0 <= from <= properties.len(),
    ensures
        from <= property_index_from(properties, key, from) <= properties.len(),
        property_index_from(properties, key, from) < properties.len() ==> properties[property_index_from(
            properties,
            key,
            from,
        )].0 == key,
        forall|k: int|
            from <= k < property_index_from(properties, key, from) ==> properties[k].0 != key,
    decreases properties.len() - from,
{
    if from < properties.len() && properties[from].0 != key {
        lemma_property_index_from(properties, key, from + 1);
    }
}

/// The value read for a key after one more property is appended: the
/// earlier value where there was one, else the new property's if it has
/// that key.
pub proof fn lemma_property_value_push(properties: PropertiesModel, last: (Seq<char>, Seq<char>), key: Seq<char>)
    ensures
        property_value(properties.push(last), key) == match property_value(properties, key) {
            Some(v) => Some(v),
            None => if last.0 == key {
                Some(last.1)
            } else {
                None
            },
        },
{
    let longer = properties.push(last);
    lemma_property_index_from(properties, key, 0);
    lemma_property_index_from(longer, key, 0);
    let a = property_index_from(properties, key, 0);
    let b = property_index_from(longer, key, 0);
    if a < properties.len() {
        assert(longer[a].0 == key);
        if b < a {
            assert(properties[b].0 == longer[b].0);
        }
        assert(a == b);
    } else {
        if b < properties.len() {
            assert(properties[b].0 == longer[b].0);
        }
        if last.0 == key {
            assert(longer[properties.len() as int].0 == key);
        }
    }
}

/// Removing the properties of one key leaves no value for that key, and
/// leaves the value read for every other key as it was.
pub proof fn lemma_property_value_filter(properties: PropertiesModel, removed: Seq<char>, key: Seq<char>)
    ensures
        property_value(properties.filter(has_other_key(removed)), key) == if key == removed {
            None
        } else {
            property_value(properties, key)
        },
    decreases properties.len(),
{
    reveal(Seq::filter);
    if properties.len() == 0 {
    } else {
        let front = properties.drop_last();
        let last = properties.last();
        lemma_property_value_filter(front, removed, key);
        assert(properties == front.push(last));
        lemma_property_value_push(front, last, key);
        if has_other_key(removed)(last) {
            lemma_property_value_push(front.filter(has_other_key(removed)), last, key);
        }
    }
}

/// After a key is set, that key reads as the new value and every other
/// key reads as before.
pub proof fn lemma_properties_with(properties: PropertiesModel, key: Seq<char>, value: Seq<char>, other: Seq<char>)
    ensures
        property_value(properties_with(properties, key, value), other) == if other == key {
            Some(value)
        } else {
            property_value(properties, other)
        },
{
    lemma_property_value_filter(properties, key, other);
    lemma_property_value_push(properties.filter(has_other_key(key)), (key, value), other);
}

/// What setting a property does to the sections of a document: none
/// leaves or moves, every section but the edited one is the same, and a
/// section is appended only where the name was missing.
pub proof fn lemma_document_with(doc: DocumentModel, name: Seq<char>, key: Seq<char>, value: Seq<char>)
    ensures
        ({
            let after = document_with(doc, name, key, value);
            let t = section_index(doc, Some(name));
            &&& 0 <= t <= doc.len()
            &&& after.len() == if t < doc.len() {
                doc.len()
            } else {
                doc.len() + 1
            }
            &&& forall|i: int| 0 <= i < doc.len() ==> (#[trigger] after[i]).0 == doc[i].0
            &&& forall|i: int| 0 <= i < doc.len() && i != t ==> #[trigger] after[i] == doc[i]
            &&& section_index(after, Some(name)) == t
            &&& after[t] == (
                Some(name),
                properties_with(
                    if t < doc.len() {
                        doc[t].1
                    } else {
                        Seq::empty()
                    },
                    key,
                    value,
                ),
            )
        }),
{
    let after = document_with(doc, name, key, value);
    let t = section_index(doc, Some(name));
    lemma_section_index_from(doc, Some(name), 0);
    lemma_section_index_from(after, Some(name), 0);
    let u = section_index(after, Some(name));
    assert(after[t].0 == Some(name));
    if u < t {
        assert(doc[u].0 == after[u].0);
    }
}

/// Setting a property in the section `name` keeps the first section of
/// every other name where it was, and introduces no other name.
pub proof fn lemma_document_with_index(doc: DocumentModel, name: Seq<char>, key: Seq<char>, value: Seq<char>, other: Option<Seq<char>>)
    requires
        other != Some(name),
    ensures
        has_section(document_with(doc, name, key, value), other) == has_section(doc, other),
        has_section(doc, other) ==> section_index(document_with(doc, name, key, value), other)
            == section_index(doc, other),
{
    let after = document_with(doc, name, key, value);
    lemma_document_with(doc, name, key, value);
    lemma_section_index_from(doc, other, 0);
    lemma_section_index_from(after, other, 0);
    let a = section_index(doc, other);
    let b = section_index(after, other);
    if a < doc.len() {
        assert(after[a].0 == doc[a].0);
        if b < a {
            assert(after[b].0 == doc[b].0);
        }
    } else {
        if b < doc.len() {
            assert(after[b].0 == doc[b].0);
        }
    }
}

impl Section {
    /// The position of the first property whose key is `key`, or the
    /// number of properties.
    fn position(&self, key: &str) -> (i: usize)
        ensures
            i == property_index_from(self@.1, key@, 0),
            i <= self.properties@.len(),
    {
        let mut i: usize = 0;
        while i < self.properties.len()
            invariant
                i <= self.properties@.len(),
                self@.1.len() == self.properties@.len(),
                property_index_from(self@.1, key@, 0) == property_index_from(self@.1, key@, i as int),
            decreases self.properties@.len() - i,
        {
            if crate::text::same_text(self.properties[i].key.as_str(), key) {
                return i;
            }
            i = i + 1;
        }
        i
    }

    /// Whether the section has a property with the key `key`.
    pub fn contains_key(&self, key: &str) -> (present: bool)
        ensures
            present == has_property(self@.1, key@),
    {
        self.position(key) < self.properties.len()
    }

    /// The value of the first property whose key is `key`.
    pub fn get(&self, key: &str) -> (value: Option<&str>)
        ensures
            value is Some <==> property_value(self@.1, key@) is Some,
            value matches Some(v) ==> property_value(self@.1, key@) == Some(v@),
    {
        let i: usize = self.position(key);
        if i < self.properties.len() {
            Some(self.properties[i].value.as_str())
        } else {
            None
        }
    }
}

/// The first section of `sections` that is named `name`.
pub fn find_section<'a>(sections: &'a Vec<Section>, name: &str) -> (found: Option<&'a Section>)
    ensures
        found is Some <==> has_section(document_model(sections@), Some(name@)),
        found matches Some(s) ==> s@ == document_model(sections@)[section_index(
            document_model(sections@),
            Some(name@),
        )],
{
    let ghost doc = document_model(sections@);
    let mut i: usize = 0;
    while i < sections.len()
        invariant
            i <= sections@.len(),
            doc == document_model(sections@),
            section_index(doc, Some(name@)) == section_index_from(doc, Some(name@), i as int),
        decreases sections@.len() - i,
    {
        let hit: bool = match &sections[i].name {
            Some(n) => crate::text::same_text(n.as_str(), name),
            None => false,
        };
        if hit {
            return Some(&sections[i]);
        }
        i = i + 1;
    }
    None
}

/// Parses a document with `Ini::load_from_str`. The contract is assumed,
/// not proved. It names the outcome: an error exactly where the named
/// parse gives `None`, and else a document whose sections are the named
/// ones.
#[verifier::external_body]
pub(crate) fn parse(text: &str) -> (r: Result<Ini, ParseError>)
    ensures
        r is Ok <==> ini_parse(text@) is Some,
        r matches Ok(doc) ==> ini_parse(text@) == Some(ini_sections(doc)),
{
    Ini::load_from_str(text)
}

/// Hands out what `Ini::iter` and `Properties::iter` walk, each item copied
/// into plain values, in the same order. The contract is assumed, not
/// proved: it says that the copies are the document's sections.
#[verifier::external_body]
pub(crate) fn sections_of(doc: &Ini) -> (sections: Vec<Section>)
    ensures
        document_model(sections@) == ini_sections(*doc),
{
    doc.iter().map(|(name, properties)| Section {
        name: name.map(String::from),
        properties: properties.iter().map(|(k, v)| Property {
            key: String::from(k),
            value: String::from(v),
        }).collect(),
    }).collect()
}

/// Sets one property with `Ini::with_section` and `SectionSetter::set`.
/// The contract is assumed, not proved. It claims what the source of `set`
/// shows: the first section of that name is the one edited, a missing one
/// is appended, and within the section the key's earlier values are
/// replaced by one value at the end.
#[verifier::external_body]
pub(crate) fn set_property(doc: &mut Ini, section: &str, key: &str, value: &str)
    ensures
        ini_sections(*final(doc)) == document_with(ini_sections(*old(doc)), section@, key@, value@),
{
    doc.with_section(Some(section)).set(key, value);
}

/// Writes the document with `Ini::write_to_opt` into memory, where no
/// write fails. The contract is assumed, not proved: it names the text by
/// the document's sections.
#[verifier::external_body]
pub(crate) fn render(doc: &Ini) -> (text: String)
    ensures
        text@ == ini_text(ini_sections(*doc)),
{
    let mut buffer: Vec<u8> = Vec::new();
    let option = WriteOption { escape_policy: EscapePolicy::Basics, line_separator: LineSeparator::CR };
    let _ = doc.write_to_opt(&mut buffer, option);
    String::from_utf8_lossy(&buffer).into_owned()
}

} // verus!
