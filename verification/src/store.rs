//! The credentials document as a store: merging rotated key pairs into it
//! without disturbing anything else that it holds.

use crate::config::ACCESS_KEY_ID;
use crate::config::SECRET_ACCESS_KEY;
use crate::config::stored_credential;
use crate::config::CredentialField;
use crate::document::document_with;
use crate::document::has_section;
use crate::document::lemma_document_with;
use crate::document::lemma_document_with_index;
use crate::document::lemma_properties_with;
use crate::document::property_value;
use crate::document::section_index;
use crate::document::ini_parse;
use crate::document::ini_sections;
use crate::document::ini_text;
use crate::document::parse;
use crate::document::render;
use crate::document::set_property;
use crate::document::DocumentModel;
use crate::registry::names_distinct;
use crate::registry::EntryModel;
use crate::registry::ProfileRegistry;
use crate::rotate_error::RotateError;
use ini::Ini;
use vstd::prelude::*;

verus! {

/// Why the credentials document could not be updated.
#[derive(Debug, Clone, Copy, PartialEq, Eq, Structural)]
pub enum StoreError {
    /// The document could not be parsed; nothing was written.
    Malformed,
}

impl StoreError {
    /// The text shown to the user.
    pub fn to_string(&self) -> (s: String)
        ensures
            s@ == "Failed to load the credential file"@,
    {
        "Failed to load the credential file".to_owned()
    }

    /// The error as a [`RotateError`]: the same text, tied to no profile.
    pub fn to_rotate_error(&self) -> (e: RotateError)
        ensures
            e.message@ == "Failed to load the credential file"@,
            e.profile is None,
    {
        RotateError { message: self.to_string(), profile: None }
    }
}

/// The document after the key pair of `profile` is stored: the identifier
/// is set first, then the secret.
pub open spec fn document_with_credential(doc: DocumentModel, profile: Seq<char>, credential: (Seq<char>, Seq<char>)) -> DocumentModel {
    document_with(
        document_with(doc, profile, ACCESS_KEY_ID@, credential.0),
        profile,
        SECRET_ACCESS_KEY@,
        credential.1,
    )
}

/// The document after the first `n` of `entries` are stored, in order.
pub open spec fn document_with_entries(doc: DocumentModel, entries: Seq<EntryModel>, n: int) -> DocumentModel
    decreases n,
{
    if n <= 0 || n > entries.len() {
        doc
    } else {
        document_with_credential(
            document_with_entries(doc, entries, n - 1),
            entries[n - 1].0,
            entries[n - 1].1,
        )
    }
}

/// The document after every profile of `updates` is stored.
pub open spec fn document_with_updates(doc: DocumentModel, updates: Seq<EntryModel>) -> DocumentModel {
    document_with_entries(doc, updates, updates.len() as int)
}

/// The two key fields have different names.
proof fn lemma_field_names_differ()
    ensures
        ACCESS_KEY_ID@ != SECRET_ACCESS_KEY@,
{
    reveal_strlit("aws_access_key_id");
    reveal_strlit("aws_secret_access_key");
    assert(ACCESS_KEY_ID@.len() == 17);
    assert(SECRET_ACCESS_KEY@.len() == 21);
}

/// What storing one key pair does to a document: the profile's first
/// section, or a new last one, then holds the pair; every other section is
/// the same; no section leaves or moves.
proof fn lemma_store_one(doc: DocumentModel, profile: Seq<char>, credential: (Seq<char>, Seq<char>))
    ensures
        ({
            let after = document_with_credential(doc, profile, credential);
            let t = section_index(doc, Some(profile));
            &&& 0 <= t <= doc.len()
            &&& doc.len() <= after.len()
            &&& forall|i: int| 0 <= i < doc.len() ==> (#[trigger] after[i]).0 == doc[i].0
            &&& forall|i: int| 0 <= i < doc.len() && i != t ==> #[trigger] after[i] == doc[i]
            &&& section_index(after, Some(profile)) == t
            &&& t < after.len()
            &&& stored_credential(after, profile) == Some(
                Ok::<(Seq<char>, Seq<char>), CredentialField>(credential),
            )
        }),
{
    let mid = document_with(doc, profile, ACCESS_KEY_ID@, credential.0);
    let after = document_with(mid, profile, SECRET_ACCESS_KEY@, credential.1);
    lemma_field_names_differ();
    lemma_document_with(doc, profile, ACCESS_KEY_ID@, credential.0);
    lemma_document_with(mid, profile, SECRET_ACCESS_KEY@, credential.1);
    let t = section_index(doc, Some(profile));
    lemma_properties_with(mid[t].1, SECRET_ACCESS_KEY@, credential.1, ACCESS_KEY_ID@);
    lemma_properties_with(mid[t].1, SECRET_ACCESS_KEY@, credential.1, SECRET_ACCESS_KEY@);
    let base = if t < doc.len() {
        doc[t].1
    } else {
        Seq::empty()
    };
    lemma_properties_with(base, ACCESS_KEY_ID@, credential.0, ACCESS_KEY_ID@);
    assert forall|i: int| 0 <= i < doc.len() implies (#[trigger] after[i]).0 == doc[i].0 by {
        assert(mid[i].0 == doc[i].0);
    }
    assert forall|i: int| 0 <= i < doc.len() && i != t implies #[trigger] after[i] == doc[i] by {
        assert(mid[i] == doc[i]);
    }
}

/// Storing one key pair keeps the first section of every other name where
/// it was and as it was, and introduces no other name.
proof fn lemma_store_one_other(doc: DocumentModel, profile: Seq<char>, credential: (Seq<char>, Seq<char>), other: Option<Seq<char>>)
    requires
        other != Some(profile),
    ensures
        ({
            let after = document_with_credential(doc, profile, credential);
            &&& has_section(after, other) == has_section(doc, other)
            &&& has_section(doc, other) ==> section_index(after, other) == section_index(doc, other)
                && after[section_index(doc, other)] == doc[section_index(doc, other)]
        }),
{
    let mid = document_with(doc, profile, ACCESS_KEY_ID@, credential.0);
    lemma_document_with_index(doc, profile, ACCESS_KEY_ID@, credential.0, other);
    lemma_document_with_index(mid, profile, SECRET_ACCESS_KEY@, credential.1, other);
    lemma_store_one(doc, profile, credential);
    crate::document::lemma_section_index_from(doc, other, 0);
    crate::document::lemma_section_index_from(doc, Some(profile), 0);
}

/// Storing one key pair leaves every property of another key readable as
/// before, in every section that the document had.
proof fn lemma_store_one_field(doc: DocumentModel, profile: Seq<char>, credential: (Seq<char>, Seq<char>), i: int, key: Seq<char>)
    requires
        0 <= i < doc.len(),
        key != ACCESS_KEY_ID@,
        key != SECRET_ACCESS_KEY@,
    ensures
        i < document_with_credential(doc, profile, credential).len(),
        property_value(document_with_credential(doc, profile, credential)[i].1, key) == property_value(
            doc[i].1,
            key,
        ),
{
    let mid = document_with(doc, profile, ACCESS_KEY_ID@, credential.0);
    lemma_document_with(doc, profile, ACCESS_KEY_ID@, credential.0);
    lemma_document_with(mid, profile, SECRET_ACCESS_KEY@, credential.1);
    let t = section_index(doc, Some(profile));
    if i == t {
        lemma_properties_with(doc[t].1, ACCESS_KEY_ID@, credential.0, key);
        lemma_properties_with(mid[t].1, SECRET_ACCESS_KEY@, credential.1, key);
    } else {
        assert(mid[i] == doc[i]);
    }
}

/// Through any number of stored entries, no section leaves or moves, and
/// the first section of a name that the document had stays the first.
proof fn lemma_store_keeps_places(doc: DocumentModel, entries: Seq<EntryModel>, n: int, name: Option<Seq<char>>)
    requires
        0 <= n <= entries.len(),
    ensures
        doc.len() <= document_with_entries(doc, entries, n).len(),
        forall|i: int| 0 <= i < doc.len() ==> (#[trigger] document_with_entries(doc, entries, n)[i]).0 == doc[i].0,
        has_section(doc, name) ==> section_index(document_with_entries(doc, entries, n), name)
            == section_index(doc, name),
    decreases n,
{
    if n > 0 {
        let before = document_with_entries(doc, entries, n - 1);
        let after = document_with_entries(doc, entries, n);
        lemma_store_keeps_places(doc, entries, n - 1, name);
        lemma_store_one(before, entries[n - 1].0, entries[n - 1].1);
        if name != Some(entries[n - 1].0) {
            lemma_store_one_other(before, entries[n - 1].0, entries[n - 1].1, name);
        }
        assert forall|i: int| 0 <= i < doc.len() implies (#[trigger] after[i]).0 == doc[i].0 by {
            assert(before[i].0 == doc[i].0);
        }
    }
}

/// A section that is not the first section of an updated profile's name is
/// the same after the update as before it.
pub proof fn untouched_sections_are_preserved(doc: DocumentModel, updates: Seq<EntryModel>, i: int)
    requires
        0 <= i < doc.len(),
        forall|k: int|
            0 <= k < updates.len() ==> !(doc[i].0 == Some((#[trigger] updates[k]).0) && section_index(
                doc,
                doc[i].0,
            ) == i),
    ensures
        i < document_with_updates(doc, updates).len(),
        document_with_updates(doc, updates)[i] == doc[i],
{
    lemma_untouched(doc, updates, updates.len() as int, i);
}

proof fn lemma_untouched(doc: DocumentModel, entries: Seq<EntryModel>, n: int, i: int)
    requires
        0 <= n <= entries.len(),
        0 <= i < doc.len(),
        forall|k: int|
            0 <= k < n ==> !(doc[i].0 == Some((#[trigger] entries[k]).0) && section_index(doc, doc[i].0)
                == i),
    ensures
        i < document_with_entries(doc, entries, n).len(),
        document_with_entries(doc, entries, n)[i] == doc[i],
    decreases n,
{
    if n > 0 {
        let before = document_with_entries(doc, entries, n - 1);
        let name = entries[n - 1].0;
        lemma_untouched(doc, entries, n - 1, i);
        lemma_store_keeps_places(doc, entries, n - 1, Some(name));
        lemma_store_one(before, name, entries[n - 1].1);
        let t = section_index(before, Some(name));
        if t == i {
            crate::document::lemma_section_index_from(before, Some(name), 0);
            crate::document::lemma_section_index_from(doc, Some(name), 0);
            assert(before[i].0 == Some(name));
            assert(doc[i].0 == Some(name));
            assert(has_section(doc, Some(name)));
            assert(section_index(doc, doc[i].0) == i);
            assert(entries[n - 1].0 == name);
        }
    }
}

/// A profile that is not updated reads back from the updated document as
/// it read before: the same section in the same place, or none.
pub proof fn other_profiles_read_back_unchanged(doc: DocumentModel, updates: Seq<EntryModel>, profile: Seq<char>)
    requires
        forall|k: int| 0 <= k < updates.len() ==> (#[trigger] updates[k]).0 != profile,
    ensures
        has_section(document_with_updates(doc, updates), Some(profile)) == has_section(
            doc,
            Some(profile),
        ),
        has_section(doc, Some(profile)) ==> {
            &&& section_index(document_with_updates(doc, updates), Some(profile)) == section_index(
                doc,
                Some(profile),
            )
            &&& document_with_updates(doc, updates)[section_index(doc, Some(profile))]
                == doc[section_index(doc, Some(profile))]
        },
        stored_credential(document_with_updates(doc, updates), profile) == stored_credential(
            doc,
            profile,
        ),
{
    lemma_others(doc, updates, updates.len() as int, profile);
}

proof fn lemma_others(doc: DocumentModel, entries: Seq<EntryModel>, n: int, profile: Seq<char>)
    requires
        0 <= n <= entries.len(),
        forall|k: int| 0 <= k < n ==> (#[trigger] entries[k]).0 != profile,
    ensures
        has_section(document_with_entries(doc, entries, n), Some(profile)) == has_section(
            doc,
            Some(profile),
        ),
        has_section(doc, Some(profile)) ==> {
            &&& section_index(document_with_entries(doc, entries, n), Some(profile)) == section_index(
                doc,
                Some(profile),
            )
            &&& document_with_entries(doc, entries, n)[section_index(doc, Some(profile))]
                == doc[section_index(doc, Some(profile))]
        },
        stored_credential(document_with_entries(doc, entries, n), profile) == stored_credential(
            doc,
            profile,
        ),
    decreases n,
{
    if n > 0 {
        let before = document_with_entries(doc, entries, n - 1);
        lemma_others(doc, entries, n - 1, profile);
        assert(entries[n - 1].0 != profile);
        lemma_store_one_other(before, entries[n - 1].0, entries[n - 1].1, Some(profile));
    }
}

/// Every updated profile reads back from the updated document with its
/// new key pair.
pub proof fn updated_profiles_read_back_new(doc: DocumentModel, updates: Seq<EntryModel>, k: int)
    requires
        names_distinct(updates),
        0 <= k < updates.len(),
    ensures
        stored_credential(document_with_updates(doc, updates), updates[k].0) == Some(
            Ok::<(Seq<char>, Seq<char>), CredentialField>(updates[k].1),
        ),
{
    lemma_updated(doc, updates, updates.len() as int, k);
}

proof fn lemma_updated(doc: DocumentModel, entries: Seq<EntryModel>, n: int, k: int)
    requires
        names_distinct(entries),
        0 <= k < n <= entries.len(),
    ensures
        stored_credential(document_with_entries(doc, entries, n), entries[k].0) == Some(
            Ok::<(Seq<char>, Seq<char>), CredentialField>(entries[k].1),
        ),
    decreases n,
{
    let before = document_with_entries(doc, entries, n - 1);
    if k == n - 1 {
        lemma_store_one(before, entries[k].0, entries[k].1);
    } else {
        lemma_updated(doc, entries, n - 1, k);
        assert(entries[k].0 != entries[n - 1].0);
        lemma_store_one_other(before, entries[n - 1].0, entries[n - 1].1, Some(entries[k].0));
    }
}

/// In every section that the document had, the name stays and every
/// property other than the two key fields reads back as before.
pub proof fn other_fields_are_preserved(doc: DocumentModel, updates: Seq<EntryModel>, i: int, key: Seq<char>)
    requires
        0 <= i < doc.len(),
        key != ACCESS_KEY_ID@,
        key != SECRET_ACCESS_KEY@,
    ensures
        i < document_with_updates(doc, updates).len(),
        document_with_updates(doc, updates)[i].0 == doc[i].0,
        property_value(document_with_updates(doc, updates)[i].1, key) == property_value(doc[i].1, key),
{
    lemma_fields(doc, updates, updates.len() as int, i, key);
}

proof fn lemma_fields(doc: DocumentModel, entries: Seq<EntryModel>, n: int, i: int, key: Seq<char>)
    requires
        0 <= n <= entries.len(),
        0 <= i < doc.len(),
        key != ACCESS_KEY_ID@,
        key != SECRET_ACCESS_KEY@,
    ensures
        i < document_with_entries(doc, entries, n).len(),
        document_with_entries(doc, entries, n)[i].0 == doc[i].0,
        property_value(document_with_entries(doc, entries, n)[i].1, key) == property_value(
            doc[i].1,
            key,
        ),
    decreases n,
{
    lemma_store_keeps_places(doc, entries, n, None);
    if n > 0 {
        let before = document_with_entries(doc, entries, n - 1);
        lemma_fields(doc, entries, n - 1, i, key);
        lemma_store_keeps_places(doc, entries, n - 1, None);
        lemma_store_one_field(before, entries[n - 1].0, entries[n - 1].1, i, key);
    }
}

/// Stores every key pair of `updates` in the document, in registry order.
/// Only the two key fields of the updated profiles change.
pub fn apply_updates(doc: &mut Ini, updates: &ProfileRegistry)
    ensures
        ini_sections(*final(doc)) == document_with_updates(ini_sections(*old(doc)), updates.entries()),
{
    let ghost before = ini_sections(*doc);
    let mut i: usize = 0;
    while i < updates.len()
        invariant
            i <= updates.entries().len(),
            ini_sections(*doc) == document_with_entries(before, updates.entries(), i as int),
        decreases updates.entries().len() - i,
    {
        let profile = updates.profile(i);
        set_property(doc, profile.name.as_str(), ACCESS_KEY_ID, profile.config.access_key_id.as_str());
        set_property(
            doc,
            profile.name.as_str(),
            SECRET_ACCESS_KEY,
            profile.config.secret_access_key.as_str(),
        );
        i = i + 1;
    }
}

/// Loads the credentials document from its text. A text that does not
/// parse is an error.
pub fn load(cred_text: &str) -> (r: Result<Ini, StoreError>)
    ensures
        match ini_parse(cred_text@) {
            None => r == Err::<Ini, StoreError>(StoreError::Malformed),
            Some(doc) => r matches Ok(loaded) && ini_sections(loaded) == doc,
        },
{
    match parse(cred_text) {
        Err(_) => Err(StoreError::Malformed),
        Ok(doc) => Ok(doc),
    }
}

/// Merges `configs` into the credentials document whose text is
/// `cred_text`, and returns the text of the merged document. A text that
/// does not parse is an error, and then nothing is produced.
pub fn write_credentials(configs: &ProfileRegistry, cred_text: &str) -> (r: Result<String, StoreError>)
    ensures
        match ini_parse(cred_text@) {
            None => r == Err::<String, StoreError>(StoreError::Malformed),
            Some(doc) => r matches Ok(text) && text@ == ini_text(
                document_with_updates(doc, configs.entries()),
            ),
        },
{
    match load(cred_text) {
        Err(e) => Err(e),
        Ok(mut doc) => {
            apply_updates(&mut doc, configs);
            Ok(render(&doc))
        },
    }
}

} // verus!
