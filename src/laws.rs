//! Properties of a migration that relate several of its parts.

use vstd::prelude::*;
use crate::meta::{opt_views, MetaDoc};
use crate::migrate::{
    all_ids, asset_path, located_tag_outcome, run, run_step, subdir_kind, RunState, SourceFile,
    SubdirKind, TagValue,
};
use crate::output::{folder_well_formed, vfolder_binary_files, vfolder_text_files, well_formed_path};
use crate::output::graft;
use crate::text::has_prefix;
use crate::transpile::{is_function_domain, tag_qualifier};

verus! {

/// Metadata whose only top-level key is `pack`, with no `supported_formats`
/// inside it, passes the compatibility gate.
pub proof fn lemma_pack_only_is_compatible(meta: MetaDoc)
    requires
        opt_views(meta.keys) == Some(seq!["pack"@]),
        meta.pack_keys is Some,
        !opt_views(meta.pack_keys)->0.contains("supported_formats"@),
    ensures
        meta.compatible(),
{
    let k = opt_views(meta.keys)->0;
    assert(k[0] == "pack"@);
}

/// Metadata with any top-level key besides `pack` fails the compatibility
/// gate, whatever `pack` holds.
pub proof fn lemma_extra_key_is_incompatible(meta: MetaDoc, extra: Seq<char>)
    requires
        meta.keys is Some,
        opt_views(meta.keys)->0.contains("pack"@),
        opt_views(meta.keys)->0.contains(extra),
        extra != "pack"@,
    ensures
        !meta.compatible(),
{
    let k = opt_views(meta.keys)->0;
    if k.len() == 1 {
        let i = choose|i: int| 0 <= i < k.len() && k[i] == extra;
        let j = choose|j: int| 0 <= j < k.len() && k[j] == "pack"@;
        assert(i == 0 && j == 0);
    }
}

/// A tag of the function domain never carries a type qualifier, under
/// either spelling of the domain; a tag of any other type always does.
pub proof fn lemma_function_domain_unqualified(tag_type: Seq<char>)
    ensures
        is_function_domain(tag_type) <==> tag_qualifier(tag_type).len() == 0,
        (tag_type == "function"@ || tag_type == "functions"@) ==> tag_qualifier(tag_type)
            == Seq::<char>::empty(),
{
    if !is_function_domain(tag_type) {
        reveal_strlit(" of \"");
        assert((" of \""@ + tag_type + "\""@).len() > 0);
    }
}

/// One entry that is no plain string is enough to refuse a tag, and a tag
/// of plain strings only is never refused on account of its entries.
pub proof fn lemma_unsupported_entry_refuses_tag(values: Seq<TagValue>, i: int)
    requires
        0 <= i < values.len(),
        values[i] is Unsupported,
    ensures
        !all_ids(values),
{
}

/// Copying an asset folder adds files under `assets/data/` only: no source
/// file of the project appears, the copied files keep their content, and
/// whatever the project held elsewhere stays.
pub proof fn lemma_assets_copied_verbatim<V>(
    base: Map<Seq<char>, V>,
    namespace: Seq<char>,
    subdir: Seq<char>,
    folder: Map<Seq<char>, V>,
)
    ensures
        forall|k: Seq<char>|
            #![trigger folder.dom().contains(k)]
            folder.dom().contains(k) ==> graft(
                base,
                asset_path(namespace, subdir),
                folder,
            ).dom().contains(asset_path(namespace, subdir).push('/') + k) && graft(
                base,
                asset_path(namespace, subdir),
                folder,
            )[asset_path(namespace, subdir).push('/') + k] == folder[k],
        forall|k: Seq<char>|
            #![trigger graft(base, asset_path(namespace, subdir), folder).dom().contains(k)]
            graft(base, asset_path(namespace, subdir), folder).dom().contains(k) && has_prefix(
                k,
                "src/"@,
            ) ==> base.dom().contains(k) && graft(base, asset_path(namespace, subdir), folder)[k]
                == base[k],
{
    let at = asset_path(namespace, subdir);
    let prefix = at.push('/');
    reveal_strlit("assets/data/");
    reveal_strlit("src/");
    assert forall|k: Seq<char>| #![trigger folder.dom().contains(k)] folder.dom().contains(k) implies graft(
        base,
        at,
        folder,
    ).dom().contains(prefix + k) && graft(base, at, folder)[prefix + k] == folder[k] by {
        let full = prefix + k;
        assert(full.subrange(0, prefix.len() as int) =~= prefix);
        assert(full.subrange(prefix.len() as int, full.len() as int) =~= k);
    }
    assert forall|k: Seq<char>|
        #![trigger graft(base, at, folder).dom().contains(k)]
        graft(base, at, folder).dom().contains(k) && has_prefix(k, "src/"@) implies base.dom().contains(k)
        && graft(base, at, folder)[k] == base[k] by {
        if has_prefix(k, prefix) {
            assert(k[0] == prefix[0]);
            assert(prefix[0] == 'a');
            assert(k.subrange(0, 4)[0] == 's');
        }
    }
}

/// A namespace subdirectory is copied as assets exactly when its name is
/// neither a function folder nor `tags`.
pub proof fn lemma_other_subdirs_are_assets(name: Seq<char>)
    ensures
        (subdir_kind(name) == SubdirKind::Assets) <==> (name != "function"@ && name != "functions"@
            && name != "tags"@),
{
}

/// Migrating a function file, a tag file or an asset folder a second time
/// with the same input leaves the project exactly as the first time did:
/// a rerun writes the same bytes to the same paths.
pub proof fn lemma_rerun_is_idempotent<V>(
    files: Map<Seq<char>, Seq<char>>,
    path: Seq<char>,
    content: Seq<char>,
    base: Map<Seq<char>, V>,
    at: Seq<char>,
    folder: Map<Seq<char>, V>,
)
    ensures
        files.insert(path, content).insert(path, content) == files.insert(path, content),
        graft(graft(base, at, folder), at, folder) == graft(base, at, folder),
{
    assert(files.insert(path, content).insert(path, content) =~= files.insert(path, content));
    assert(graft(graft(base, at, folder), at, folder) =~= graft(base, at, folder));
}

/// Files that land on different paths do not depend on the order in which
/// they were migrated, so the order of a directory listing cannot change the
/// produced project.
pub proof fn lemma_distinct_outputs_commute(
    files: Map<Seq<char>, Seq<char>>,
    p1: Seq<char>,
    c1: Seq<char>,
    p2: Seq<char>,
    c2: Seq<char>,
)
    requires
        p1 != p2,
    ensures
        files.insert(p1, c1).insert(p2, c2) == files.insert(p2, c2).insert(p1, c1),
{
    assert(files.insert(p1, c1).insert(p2, c2) =~= files.insert(p2, c2).insert(p1, c1));
}

/// In a whole run, a tag file with an entry that is no plain string
/// changes nothing: the run ends exactly as it would without that file, so
/// every other function and tag file is still migrated and the run fails
/// only where it would have failed anyway.
pub proof fn lemma_refused_tag_is_skipped(
    version: Seq<char>,
    st: RunState,
    es: Seq<SourceFile>,
    i: int,
)
    requires
        0 <= i < es.len(),
        es[i] matches SourceFile::Tag { tag, .. } && (tag matches Some(t) && !all_ids(t.values@)),
    ensures
        run(version, st, es) == run(version, st, es.remove(i)),
    decreases es.len(),
{
    if let SourceFile::Tag { namespace, tag_type, file, root, tag } = es[i] {
        assert(located_tag_outcome(version, namespace@, tag_type@, file@, root@, tag) is Err);
    }
    if i == es.len() - 1 {
        assert(es.remove(i) =~= es.drop_last());
        assert(run(version, st, es) == run_step(version, run(version, st, es.drop_last()), es[i]));
    } else {
        assert(es.remove(i).drop_last() =~= es.drop_last().remove(i));
        assert(es.remove(i).last() == es.last());
        lemma_refused_tag_is_skipped(version, st, es.drop_last(), i);
    }
}

/// A run over a pack whose only namespace holds nothing but one
/// unrecognised subdirectory produces no source file, copies that folder's
/// files unchanged under `assets/data/<namespace>/<subdir>/`, marks the
/// assets as copied (so the configuration names the assets folder), and
/// succeeds.
pub proof fn lemma_asset_only_namespace(version: Seq<char>, e: SourceFile)
    requires
        e matches SourceFile::Assets { namespace, subdir, folder } && well_formed_path(
            asset_path(namespace@, subdir@),
        ) && folder_well_formed(folder),
    ensures
        ({
            let end = run(version, (Map::empty(), Map::empty(), false, None), seq![e]);
            &&& end.3 is None
            &&& end.2
            &&& forall|k: Seq<char>| #[trigger] end.0.dom().contains(k) ==> !has_prefix(k, "src/"@)
            &&& forall|k: Seq<char>| #[trigger] end.1.dom().contains(k) ==> !has_prefix(k, "src/"@)
            &&& e matches SourceFile::Assets { namespace, subdir, folder } && {
                let prefix = asset_path(namespace@, subdir@).push('/');
                &&& forall|k: Seq<char>|
                    #[trigger] vfolder_text_files(folder).dom().contains(k) ==> end.0.dom().contains(
                        prefix + k,
                    ) && end.0[prefix + k] == vfolder_text_files(folder)[k]
                &&& forall|k: Seq<char>|
                    #[trigger] vfolder_binary_files(folder).dom().contains(k) ==> end.1.dom().contains(
                        prefix + k,
                    ) && end.1[prefix + k] == vfolder_binary_files(folder)[k]
            }
        }),
{
    let st0: RunState = (Map::empty(), Map::empty(), false, None);
    assert(seq![e].drop_last() =~= Seq::<SourceFile>::empty());
    assert(run(version, st0, Seq::<SourceFile>::empty()) == st0);
    assert(seq![e].last() == e);
    assert(run(version, st0, seq![e]) == run_step(version, st0, e));
    if let SourceFile::Assets { namespace, subdir, folder } = e {
        lemma_assets_copied_verbatim(
            Map::<Seq<char>, Seq<char>>::empty(),
            namespace@,
            subdir@,
            vfolder_text_files(folder),
        );
        lemma_assets_copied_verbatim(
            Map::<Seq<char>, Seq<u8>>::empty(),
            namespace@,
            subdir@,
            vfolder_binary_files(folder),
        );
    }
}

} // verus!
