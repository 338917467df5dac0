//! The metadata file of a data pack and the check that decides whether a
//! pack can be migrated without losing features.

use vstd::prelude::*;
use crate::text::{chars_of, is_word};
use crate::transpile::string_views;

verus! {

/// What the migration reads of a parsed metadata document.
pub struct MetaDoc {
    /// The top-level keys, where the document is an object.
    pub keys: Option<Vec<String>>,
    /// The keys of the `pack` member, where it is an object.
    pub pack_keys: Option<Vec<String>>,
    /// `pack.description`, where it is a string.
    pub description: Option<String>,
    /// `pack.pack_format`, where it is a non-negative integer.
    pub pack_format: Option<u64>,
}

/// The pack's description and format, as the migration carries them over.
pub struct PackMeta {
    pub description: String,
    pub pack_format: u8,
}

/// Why a migration stopped, or why one file of it was skipped.
#[derive(Debug, Clone, Copy, PartialEq, Eq, Structural)]
pub enum MigrateError {
    /// No directory on the way up from the start path holds a metadata file.
    RootNotFound,
    /// The metadata lacks a string description or a format in 0..=255.
    MalformedMeta,
    /// The metadata uses features that the migration would drop.
    IncompatibleMeta,
    /// A tag lists an entry that is not a plain string.
    UnsupportedTagEntry,
    /// A tag file is not of the form `{"replace"?: bool, "values": [...]}`.
    MalformedTag,
    /// A function file's name leaves no character for the function's name.
    EmptyFunctionName,
    /// A file does not lie under the directory it was listed from.
    OutsideRoot,
    /// A produced path would hold an empty segment.
    InvalidPath,
}

/// The characters of each key, where there is a key list.
pub open spec fn opt_views(o: Option<Vec<String>>) -> Option<Seq<Seq<char>>> {
    match o {
        Some(v) => Some(string_views(v@)),
        None => None,
    }
}

/// A document is compatible when its only top-level key is `pack` and that
/// member is an object without `supported_formats`.
pub open spec fn meta_compatible(keys: Option<Seq<Seq<char>>>, pack_keys: Option<Seq<Seq<char>>>) -> bool {
    match keys {
        Some(k) => k.len() == 1 && k.contains("pack"@) && match pack_keys {
            Some(p) => !p.contains("supported_formats"@),
            None => false,
        },
        None => false,
    }
}

impl MetaDoc {
    /// The document passes the compatibility gate.
    pub open spec fn compatible(&self) -> bool {
        meta_compatible(opt_views(self.keys), opt_views(self.pack_keys))
    }

    /// The description is a string and the format fits in a byte.
    pub open spec fn well_formed(&self) -> bool {
        &&& self.description is Some
        &&& self.pack_format is Some
        &&& self.pack_format->0 <= 255
    }
}

/// Whether `keys` holds `w`.
pub fn contains_word(keys: &Vec<String>, w: &str) -> (r: bool)
    ensures
        r == string_views(keys@).contains(w@),
{
    let mut i: usize = 0;
    while i < keys.len()
        invariant
            i <= keys@.len(),
            forall|j: int| 0 <= j < i ==> keys@[j]@ != w@,
        decreases keys@.len() - i,
    {
        let k = chars_of(keys[i].as_str());
        if is_word(&k, w) {
            assert(string_views(keys@)[i as int] == w@);
            return true;
        }
        i = i + 1;
    }
    assert(!string_views(keys@).contains(w@)) by {
        if string_views(keys@).contains(w@) {
            let j = choose|j: int| 0 <= j < keys@.len() && string_views(keys@)[j] == w@;
            assert(keys@[j]@ == w@);
        }
    }
    false
}

/// Whether the metadata can be migrated without losing features.
pub fn is_mcmeta_compatible(meta: &MetaDoc) -> (r: bool)
    ensures
        r == meta.compatible(),
{
    match &meta.keys {
        Some(keys) => {
            if keys.len() != 1 || !contains_word(keys, "pack") {
                return false;
            }
            match &meta.pack_keys {
                Some(p) => !contains_word(p, "supported_formats"),
                None => false,
            }
        },
        None => false,
    }
}

/// The compatibility gate: refuses metadata that would lose features unless
/// `force` is set, then reads the description and format.
pub fn check_meta(meta: &MetaDoc, force: bool) -> (r: Result<PackMeta, MigrateError>)
    ensures
        !force && !meta.compatible() ==> r == Err::<PackMeta, MigrateError>(
            MigrateError::IncompatibleMeta,
        ),
        (force || meta.compatible()) && !meta.well_formed() ==> r == Err::<PackMeta, MigrateError>(
            MigrateError::MalformedMeta,
        ),
        (force || meta.compatible()) && meta.well_formed() ==> (r matches Ok(m) && m.description@
            == meta.description->0@ && m.pack_format == meta.pack_format->0),
{
    if !force && !is_mcmeta_compatible(meta) {
        return Err(MigrateError::IncompatibleMeta);
    }
    match (&meta.description, meta.pack_format) {
        (Some(d), Some(f)) => {
            if f <= 255 {
                Ok(PackMeta { description: d.clone(), pack_format: f as u8 })
            } else {
                Err(MigrateError::MalformedMeta)
            }
        },
        _ => Err(MigrateError::MalformedMeta),
    }
}

} // verus!
