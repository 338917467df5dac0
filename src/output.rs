//! The in-memory folder tree that a migration fills before anything is
//! written to disk, held in shulkerbox's virtual file system.

use vstd::prelude::*;
use shulkerbox::virtual_fs::{VFile, VFolder};
use crate::text::has_prefix;
use crate::transpile::string_views;

verus! {

/// shulkerbox's in-memory folder; its content is seen only through the two
/// names below.
#[verifier::external_type_specification]
#[verifier::external_body]
pub struct ExVFolder(VFolder);

/// The text files of a folder, by their `/`-separated path inside it.
pub uninterp spec fn vfolder_text_files(f: VFolder) -> Map<Seq<char>, Seq<char>>;

/// The binary files of a folder, by their `/`-separated path inside it.
pub uninterp spec fn vfolder_binary_files(f: VFolder) -> Map<Seq<char>, Seq<u8>>;

/// A path made of non-empty segments separated by single `/`: it neither
/// starts nor ends with `/` and holds no `//`.
pub open spec fn well_formed_path(p: Seq<char>) -> bool {
    &&& p.len() > 0
    &&& p[0] != '/'
    &&& p.last() != '/'
    &&& forall|i: int| 0 <= i < p.len() - 1 && #[trigger] p[i] == '/' ==> p[i + 1] != '/'
}

/// Every path of `m` is well formed.
pub open spec fn keys_well_formed<V>(m: Map<Seq<char>, V>) -> bool {
    forall|k: Seq<char>| #[trigger] m.dom().contains(k) ==> well_formed_path(k)
}

/// Every file path of `f` is well formed.
pub open spec fn folder_well_formed(f: VFolder) -> bool {
    keys_well_formed(vfolder_text_files(f)) && keys_well_formed(vfolder_binary_files(f))
}

/// Whether `p` is a well-formed path.
pub fn is_well_formed_path(p: &Vec<char>) -> (r: bool)
    ensures
        r == well_formed_path(p@),
{
    if p.len() == 0 || p[0] == '/' || p[p.len() - 1] == '/' {
        return false;
    }
    let mut i: usize = 0;
    while i < p.len() - 1
        invariant
            p@.len() > 0,
            i < p@.len(),
            forall|j: int| 0 <= j < i && #[trigger] p@[j] == '/' ==> p@[j + 1] != '/',
        decreases p@.len() - i,
    {
        if p[i] == '/' && p[i + 1] == '/' {
            return false;
        }
        i = i + 1;
    }
    true
}

/// Joining two well-formed paths with `/` gives a well-formed path.
pub proof fn lemma_join_well_formed(at: Seq<char>, k: Seq<char>)
    requires
        well_formed_path(at),
        well_formed_path(k),
    ensures
        well_formed_path(at.push('/') + k),
{
    let q = at.push('/') + k;
    assert(q[0] == at[0]);
    assert(q.last() == k.last());
    assert forall|i: int| 0 <= i < q.len() - 1 && #[trigger] q[i] == '/' implies q[i + 1] != '/' by {
        if i < at.len() - 1 {
            assert(q[i] == at[i] && q[i + 1] == at[i + 1]);
        } else if i == at.len() - 1 {
            assert(q[i] == at.last());
        } else if i == at.len() {
            assert(q[i + 1] == k[0]);
        } else {
            assert(q[i] == k[i - at.len() - 1] && q[i + 1] == k[i - at.len()]);
        }
    }
}

/// Grafting a well-formed folder at a well-formed path keeps every path
/// well formed.
pub proof fn lemma_graft_well_formed<V>(base: Map<Seq<char>, V>, at: Seq<char>, sub: Map<Seq<char>, V>)
    requires
        well_formed_path(at),
        keys_well_formed(base),
        keys_well_formed(sub),
    ensures
        keys_well_formed(graft(base, at, sub)),
{
    let prefix = at.push('/');
    assert forall|k: Seq<char>| #[trigger] graft(base, at, sub).dom().contains(k) implies well_formed_path(k) by {
        if has_prefix(k, prefix) {
            let rest = k.subrange(prefix.len() as int, k.len() as int);
            assert(sub.dom().contains(rest));
            assert(k =~= prefix + rest);
            lemma_join_well_formed(at, rest);
        }
    }
}

/// `base` with everything under `at/` replaced by `sub`, whose paths are
/// taken relative to `at`.
pub open spec fn graft<V>(base: Map<Seq<char>, V>, at: Seq<char>, sub: Map<Seq<char>, V>) -> Map<
    Seq<char>,
    V,
> {
    let prefix = at.push('/');
    Map::new(
        |k: Seq<char>|
            if has_prefix(k, prefix) {
                sub.dom().contains(k.subrange(prefix.len() as int, k.len() as int))
            } else {
                base.dom().contains(k)
            },
        |k: Seq<char>|
            if has_prefix(k, prefix) {
                sub[k.subrange(prefix.len() as int, k.len() as int)]
            } else {
                base[k]
            },
    )
}

/// Relies on `VFolder::new`: a folder with no files.
#[verifier::external_body]
pub(crate) fn empty_folder() -> (r: VFolder)
    ensures
        vfolder_text_files(r).dom() == Set::<Seq<char>>::empty(),
        vfolder_binary_files(r).dom() == Set::<Seq<char>>::empty(),
{
    VFolder::new()
}

/// Relies on `VFolder::add_file` with a `VFile::Text`: for a well-formed path
/// into a folder whose paths are all well formed, the file at `path`
/// (subfolders created as needed) holds `text` afterwards, whatever it held
/// before; no other file changes.
#[verifier::external_body]
pub(crate) fn add_text_file(f: &mut VFolder, path: &str, text: String)
    requires
        well_formed_path(path@),
        folder_well_formed(*old(f)),
    ensures
        vfolder_text_files(*final(f)) == vfolder_text_files(*old(f)).insert(path@, text@),
        vfolder_binary_files(*final(f)) == vfolder_binary_files(*old(f)).remove(path@),
{
    f.add_file(path, VFile::Text(text))
}

/// Relies on `VFolder::add_existing_folder`: for well-formed paths throughout,
/// `sub` takes the place of the folder at `path` (parents created as needed),
/// replacing all it held.
#[verifier::external_body]
pub(crate) fn add_subfolder(f: &mut VFolder, path: &str, sub: VFolder)
    requires
        well_formed_path(path@),
        folder_well_formed(*old(f)),
        folder_well_formed(sub),
    ensures
        vfolder_text_files(*final(f)) == graft(
            vfolder_text_files(*old(f)),
            path@,
            vfolder_text_files(sub),
        ),
        vfolder_binary_files(*final(f)) == graft(
            vfolder_binary_files(*old(f)),
            path@,
            vfolder_binary_files(sub),
        ),
{
    f.add_existing_folder(path, sub)
}

/// Relies on `VFolder::flatten`: the path of every file of the folder, text
/// or binary.
#[verifier::external_body]
pub(crate) fn folder_paths(f: &VFolder) -> (r: Vec<String>)
    ensures
        forall|k: Seq<char>|
            #![trigger string_views(r@).contains(k)]
            string_views(r@).contains(k) <==> (vfolder_text_files(*f).dom().contains(k)
                || vfolder_binary_files(*f).dom().contains(k)),
{
    f.flatten().into_iter().map(|(path, _)| path).collect()
}

} // verus!
