//! A migration run: each function, tag and asset folder of a data pack is
//! turned into its place in the tree of a new Shulkerscript project.

use vstd::prelude::*;
use shulkerbox::virtual_fs::VFolder;
use crate::config::{CompilerConfig, PackConfig, ProjectConfig};
use crate::meta::{MigrateError, PackMeta};
use crate::output::{
    add_subfolder, add_text_file, empty_folder, folder_paths, folder_well_formed, graft,
    is_well_formed_path, lemma_graft_well_formed, vfolder_binary_files, vfolder_text_files,
    well_formed_path,
};
use crate::paths::{diff_paths, path_diff};
use crate::text::{chars_of, has_suffix, is_word, push_str, string_of};
use crate::transpile::{
    function_body, function_file, function_file_text, function_name, function_name_of,
    function_output, function_output_path, function_path, last_segment, last_segment_start, source_path, function_ext, tag_ext,
    string_views, tag_declaration, tag_declaration_text, tag_file, tag_file_text, tag_output,
    tag_output_path, tag_path, transpile_function_body,
};

verus! {

/// What a subdirectory of a namespace holds, by its name.
#[derive(Debug, Clone, Copy, PartialEq, Eq, Structural)]
pub enum SubdirKind {
    Functions,
    Tags,
    Assets,
}

/// `function` and `functions` hold functions, `tags` holds tags, and any
/// other name holds assets.
pub open spec fn subdir_kind(name: Seq<char>) -> SubdirKind {
    if name == "function"@ || name == "functions"@ {
        SubdirKind::Functions
    } else if name == "tags"@ {
        SubdirKind::Tags
    } else {
        SubdirKind::Assets
    }
}

/// Decides how a namespace subdirectory called `name` is migrated.
pub fn classify_subdir(name: &str) -> (r: SubdirKind)
    ensures
        r == subdir_kind(name@),
{
    let n = chars_of(name);
    if is_word(&n, "function") || is_word(&n, "functions") {
        SubdirKind::Functions
    } else if is_word(&n, "tags") {
        SubdirKind::Tags
    } else {
        SubdirKind::Assets
    }
}

/// A file called `name` has extension `ext`: the name ends in `.` and `ext`,
/// and that dot does not open the name.
pub open spec fn has_extension(name: Seq<char>, ext: Seq<char>) -> bool {
    has_suffix(name, seq!['.'] + ext) && name.len() > ext.len() + 1
}

/// Whether the file called `file_name` has the extension `ext` (given
/// without its dot, and holding none).
pub fn is_source_file(file_name: &str, ext: &str) -> (r: bool)
    ensures
        r == has_extension(file_name@, ext@),
{
    let n = chars_of(file_name);
    let mut dotted: Vec<char> = Vec::new();
    dotted.push('.');
    push_str(&mut dotted, ext);
    assert(dotted@ =~= seq!['.'] + ext@);
    if n.len() <= dotted.len() {
        return false;
    }
    let start = n.len() - dotted.len();
    let hit = crate::text::matches_at(&n, start, &dotted);
    assert(n@.subrange(start as int, n@.len() as int).subrange(0, dotted@.len() as int)
        =~= n@.subrange(n@.len() - dotted@.len(), n@.len() as int));
    hit
}

/// One entry of a tag's value list.
pub enum TagValue {
    /// A plain resource location.
    Id(String),
    /// An entry of another shape, which the migration does not support.
    Unsupported,
}

/// A parsed tag file.
pub struct TagSource {
    pub replace: bool,
    pub values: Vec<TagValue>,
}

/// Every entry is a plain resource location.
pub open spec fn all_ids(values: Seq<TagValue>) -> bool {
    forall|i: int| 0 <= i < values.len() ==> values[i] is Id
}

/// The resource locations of the entries, in their order.
pub open spec fn tag_ids(values: Seq<TagValue>) -> Seq<Seq<char>> {
    values.map_values(
        |v: TagValue|
            match v {
                TagValue::Id(s) => s@,
                TagValue::Unsupported => Seq::empty(),
            },
    )
}

/// The produced file of the function at `rel` (relative to its function root).
pub open spec fn function_entry(
    version: Seq<char>,
    namespace: Seq<char>,
    rel: Seq<char>,
    source: Seq<char>,
    text: Seq<char>,
) -> Seq<char> {
    let p = source_path(rel, function_ext());
    function_file_text(version, source, namespace, p, function_name_of(p), function_body(text))
}

/// The produced file of the tag at `rel` (relative to its tag type directory).
pub open spec fn tag_entry(
    version: Seq<char>,
    namespace: Seq<char>,
    tag_type: Seq<char>,
    rel: Seq<char>,
    source: Seq<char>,
    replace: bool,
    values: Seq<Seq<char>>,
) -> Seq<char> {
    tag_file_text(
        version,
        source,
        namespace,
        tag_declaration(source_path(rel, tag_ext()), tag_type, replace, values),
    )
}

/// Where the copy of the asset folder `subdir` of `namespace` goes.
pub open spec fn asset_path(namespace: Seq<char>, subdir: Seq<char>) -> Seq<char> {
    "assets/data/"@ + namespace + "/"@ + subdir
}

/// The path of the project configuration file.
pub open spec fn config_path() -> Seq<char> {
    "pack.toml"@
}

/// What adding the function at `rel` does: the path and text of the
/// produced file, or the error that refuses it.
pub open spec fn function_outcome(
    version: Seq<char>,
    namespace: Seq<char>,
    rel: Seq<char>,
    source: Seq<char>,
    text: Seq<char>,
) -> Result<(Seq<char>, Seq<char>), MigrateError> {
    let p = source_path(rel, function_ext());
    if function_name_of(p).len() == 0 {
        Err(MigrateError::EmptyFunctionName)
    } else if !well_formed_path(function_output_path(namespace, p)) {
        Err(MigrateError::InvalidPath)
    } else {
        Ok((function_output_path(namespace, p), function_entry(version, namespace, rel, source, text)))
    }
}

/// What adding the tag at `rel` does: the path and text of the produced
/// file, or the error that refuses it.
pub open spec fn tag_outcome(
    version: Seq<char>,
    namespace: Seq<char>,
    tag_type: Seq<char>,
    rel: Seq<char>,
    source: Seq<char>,
    tag: Option<TagSource>,
) -> Result<(Seq<char>, Seq<char>), MigrateError> {
    match tag {
        None => Err(MigrateError::MalformedTag),
        Some(t) => if !all_ids(t.values@) {
            Err(MigrateError::UnsupportedTagEntry)
        } else {
            let at = tag_output_path(namespace, tag_type, source_path(rel, tag_ext()));
            if !well_formed_path(at) {
                Err(MigrateError::InvalidPath)
            } else {
                Ok((at, tag_entry(version, namespace, tag_type, rel, source, t.replace, tag_ids(t.values@))))
            }
        },
    }
}

/// `function_outcome` for the file at `file` under the function root `root`.
pub open spec fn located_function_outcome(
    version: Seq<char>,
    namespace: Seq<char>,
    file: Seq<char>,
    root: Seq<char>,
    text: Seq<char>,
) -> Result<(Seq<char>, Seq<char>), MigrateError> {
    match path_diff(file, root) {
        None => Err(MigrateError::OutsideRoot),
        Some(rel) => function_outcome(version, namespace, rel, file, text),
    }
}

/// `tag_outcome` for the file at `file` under the tag type directory `root`.
pub open spec fn located_tag_outcome(
    version: Seq<char>,
    namespace: Seq<char>,
    tag_type: Seq<char>,
    file: Seq<char>,
    root: Seq<char>,
    tag: Option<TagSource>,
) -> Result<(Seq<char>, Seq<char>), MigrateError> {
    match path_diff(file, root) {
        None => Err(MigrateError::OutsideRoot),
        Some(rel) => tag_outcome(version, namespace, tag_type, rel, file, tag),
    }
}

/// The name of a project migrated from the pack at the absolute, normalised
/// path `root`: the path's last segment; `None` for the file system root.
pub fn project_name(root: &str) -> (r: Option<String>)
    ensures
        match r {
            Some(n) => n@ == last_segment(root@) && n@.len() > 0,
            None => last_segment(root@).len() == 0,
        },
{
    let p = chars_of(root);
    let start = last_segment_start(&p);
    if start == p.len() {
        return None;
    }
    let mut out: Vec<char> = Vec::new();
    let mut j: usize = start;
    while j < p.len()
        invariant
            start <= j <= p@.len(),
            out@ == p@.subrange(start as int, j as int),
        decreases p@.len() - j,
    {
        out.push(p[j]);
        j = j + 1;
        assert(out@ =~= p@.subrange(start as int, j as int));
    }
    Some(string_of(&out))
}

/// Whether every one of `paths` is well formed.
pub fn all_well_formed(paths: &Vec<String>) -> (r: bool)
    ensures
        r == forall|j: int| 0 <= j < paths@.len() ==> well_formed_path(#[trigger] string_views(paths@)[j]),
{
    let mut i: usize = 0;
    while i < paths.len()
        invariant
            i <= paths@.len(),
            forall|j: int| 0 <= j < i ==> well_formed_path(#[trigger] string_views(paths@)[j]),
        decreases paths@.len() - i,
    {
        if !is_well_formed_path(&chars_of(paths[i].as_str())) {
            assert(!well_formed_path(string_views(paths@)[i as int]));
            return false;
        }
        i = i + 1;
    }
    true
}

/// The state of one migration: the project tree built so far.
pub struct Migration {
    root: VFolder,
    version: String,
    uses_assets: bool,
}

/// One file or folder of the pack, as the walk of its data directory finds it.
pub enum SourceFile {
    /// A function file, read from `file` under the function root `root`.
    Function { namespace: String, file: String, root: String, text: String },
    /// A tag file under the directory `root` of its type, `None` where it
    /// could not be parsed.
    Tag { namespace: String, tag_type: String, file: String, root: String, tag: Option<TagSource> },
    /// A namespace subdirectory copied as it is.
    Assets { namespace: String, subdir: String, folder: VFolder },
}

/// The text files, binary files, whether assets were copied, and the error
/// that stopped the run, if any.
pub type RunState = (Map<Seq<char>, Seq<char>>, Map<Seq<char>, Seq<u8>>, bool, Option<MigrateError>);

/// A state with `path` set to the text `content`.
pub open spec fn with_text(st: RunState, path: Seq<char>, content: Seq<char>) -> RunState {
    (st.0.insert(path, content), st.1.remove(path), st.2, st.3)
}

/// One step of a run. After a fatal error nothing changes. A refused
/// function or asset folder is fatal; a refused tag is skipped.
pub open spec fn run_step(version: Seq<char>, st: RunState, e: SourceFile) -> RunState {
    if st.3 is Some {
        st
    } else {
        match e {
            SourceFile::Function { namespace, file, root, text } => match located_function_outcome(
                version,
                namespace@,
                file@,
                root@,
                text@,
            ) {
                Err(err) => (st.0, st.1, st.2, Some(err)),
                Ok((at, c)) => with_text(st, at, c),
            },
            SourceFile::Tag { namespace, tag_type, file, root, tag } => match located_tag_outcome(
                version,
                namespace@,
                tag_type@,
                file@,
                root@,
                tag,
            ) {
                Err(_) => st,
                Ok((at, c)) => with_text(st, at, c),
            },
            SourceFile::Assets { namespace, subdir, folder } => {
                let at = asset_path(namespace@, subdir@);
                if well_formed_path(at) && folder_well_formed(folder) {
                    (
                        graft(st.0, at, vfolder_text_files(folder)),
                        graft(st.1, at, vfolder_binary_files(folder)),
                        true,
                        None,
                    )
                } else {
                    (st.0, st.1, st.2, Some(MigrateError::InvalidPath))
                }
            },
        }
    }
}

/// The state after running `es` in order from `st`.
pub open spec fn run(version: Seq<char>, st: RunState, es: Seq<SourceFile>) -> RunState
    decreases es.len(),
{
    if es.len() == 0 {
        st
    } else {
        run_step(version, run(version, st, es.drop_last()), es.last())
    }
}

/// Once a run has stopped on an error, the rest of the files change nothing.
pub proof fn lemma_run_stops(version: Seq<char>, st: RunState, es: Seq<SourceFile>, n: int)
    requires
        0 <= n <= es.len(),
        run(version, st, es.subrange(0, n)).3 is Some,
    ensures
        run(version, st, es) == run(version, st, es.subrange(0, n)),
    decreases es.len(),
{
    if n == es.len() {
        assert(es.subrange(0, n) =~= es);
    } else {
        assert(es.drop_last().subrange(0, n) =~= es.subrange(0, n));
        lemma_run_stops(version, st, es.drop_last(), n);
    }
}

impl Migration {
    /// The text files of the project built so far, by path.
    pub closed spec fn text_files(&self) -> Map<Seq<char>, Seq<char>> {
        vfolder_text_files(self.root)
    }

    /// The binary files of the project built so far, by path.
    pub closed spec fn binary_files(&self) -> Map<Seq<char>, Seq<u8>> {
        vfolder_binary_files(self.root)
    }

    /// The tool version named in the header of every produced file.
    pub closed spec fn tool_version(&self) -> Seq<char> {
        self.version@
    }

    /// Some asset folder has been copied over.
    pub closed spec fn copied_assets(&self) -> bool {
        self.uses_assets
    }

    /// Every path of the project is well formed.
    pub closed spec fn wf(&self) -> bool {
        folder_well_formed(self.root)
    }

    /// The project as the state of a run that has not stopped.
    pub open spec fn state(&self) -> RunState {
        (self.text_files(), self.binary_files(), self.copied_assets(), None)
    }

    /// `after` is this migration with one file written as `outcome` says,
    /// or unchanged with the outcome's error.
    pub open spec fn wrote(
        &self,
        after: &Migration,
        r: Result<(), MigrateError>,
        outcome: Result<(Seq<char>, Seq<char>), MigrateError>,
    ) -> bool {
        &&& after.tool_version() == self.tool_version()
        &&& after.copied_assets() == self.copied_assets()
        &&& after.wf()
        &&& match outcome {
            Err(e) => {
                &&& r == Err::<(), MigrateError>(e)
                &&& after.text_files() == self.text_files()
                &&& after.binary_files() == self.binary_files()
            },
            Ok((at, c)) => {
                &&& r is Ok
                &&& after.text_files() == self.text_files().insert(at, c)
                &&& after.binary_files() == self.binary_files().remove(at)
            },
        }
    }

    /// A migration that has produced nothing yet.
    pub fn new(version: &str) -> (r: Self)
        ensures
            r.wf(),
            r.text_files().dom() == Set::<Seq<char>>::empty(),
            r.binary_files().dom() == Set::<Seq<char>>::empty(),
            r.tool_version() == version@,
            !r.copied_assets(),
    {
        Migration { root: empty_folder(), version: version.to_owned(), uses_assets: false }
    }

    fn write(&mut self, path: &Vec<char>, content: &Vec<char>) -> (r: Result<(), MigrateError>)
        requires
            old(self).wf(),
        ensures
            old(self).wrote(
                final(self),
                r,
                if well_formed_path(path@) {
                    Ok((path@, content@))
                } else {
                    Err(MigrateError::InvalidPath)
                },
            ),
    {
        if !is_well_formed_path(path) {
            return Err(MigrateError::InvalidPath);
        }
        let p = string_of(path);
        add_text_file(&mut self.root, p.as_str(), string_of(content));
        proof {
            let t = vfolder_text_files(self.root);
            let b = vfolder_binary_files(self.root);
            assert forall|k: Seq<char>| #[trigger] t.dom().contains(k) implies well_formed_path(k) by {
                if k != path@ {
                    assert(vfolder_text_files(old(self).root).dom().contains(k));
                }
            }
            assert forall|k: Seq<char>| #[trigger] b.dom().contains(k) implies well_formed_path(k) by {
                assert(vfolder_binary_files(old(self).root).dom().contains(k));
            }
        }
        Ok(())
    }

    /// Adds the function whose file lies at `rel` under its function root,
    /// read from `source` with text `text`.
    pub fn add_function(&mut self, namespace: &str, rel: &str, source: &str, text: &str) -> (r:
        Result<(), MigrateError>)
        requires
            old(self).wf(),
        ensures
            old(self).wrote(
                final(self),
                r,
                function_outcome(old(self).tool_version(), namespace@, rel@, source@, text@),
            ),
    {
        let p = function_path(rel);
        match function_name(&p) {
            None => Err(MigrateError::EmptyFunctionName),
            Some(name) => {
                let body = transpile_function_body(&chars_of(text));
                let content = function_file(self.version.as_str(), source, namespace, &p, &name, &body);
                let path = function_output(namespace, &p);
                self.write(&path, &content)
            },
        }
    }

    /// Adds the function file at `file`, found under the function root `root`.
    pub fn migrate_function(&mut self, namespace: &str, file: &str, root: &str, text: &str) -> (r:
        Result<(), MigrateError>)
        requires
            old(self).wf(),
        ensures
            old(self).wrote(
                final(self),
                r,
                located_function_outcome(old(self).tool_version(), namespace@, file@, root@, text@),
            ),
    {
        match diff_paths(file, root) {
            None => Err(MigrateError::OutsideRoot),
            Some(rel) => self.add_function(namespace, rel.as_str(), file, text),
        }
    }

    /// Adds the tag whose file lies at `rel` under the directory of its type
    /// `tag_type`, read from `source`; `tag` is `None` where the file could
    /// not be parsed. A refused tag leaves the project as it was.
    pub fn add_tag(
        &mut self,
        namespace: &str,
        tag_type: &str,
        rel: &str,
        source: &str,
        tag: &Option<TagSource>,
    ) -> (r: Result<(), MigrateError>)
        requires
            old(self).wf(),
        ensures
            old(self).wrote(
                final(self),
                r,
                tag_outcome(old(self).tool_version(), namespace@, tag_type@, rel@, source@, *tag),
            ),
    {
        let t = match tag {
            None => {
                return Err(MigrateError::MalformedTag);
            },
            Some(t) => t,
        };
        assert(*tag == Some(*t));
        let mut ids: Vec<String> = Vec::new();
        let mut i: usize = 0;
        while i < t.values.len()
            invariant
                i <= t.values@.len(),
                *self == *old(self),
                old(self).wf(),
                *tag == Some(*t),
                all_ids(t.values@.subrange(0, i as int)),
                string_views(ids@) == tag_ids(t.values@.subrange(0, i as int)),
            decreases t.values@.len() - i,
        {
            match &t.values[i] {
                TagValue::Id(s) => {
                    let ghost before = ids@;
                    ids.push(s.clone());
                    assert(string_views(ids@) =~= string_views(before).push(s@));
                    assert(tag_ids(t.values@.subrange(0, i + 1)) =~= tag_ids(
                        t.values@.subrange(0, i as int),
                    ).push(s@));
                    assert(all_ids(t.values@.subrange(0, i + 1))) by {
                        assert forall|j: int| 0 <= j < i + 1 implies #[trigger] t.values@.subrange(
                            0,
                            i + 1,
                        )[j] is Id by {
                            if j < i {
                                assert(t.values@.subrange(0, i + 1)[j] == t.values@.subrange(
                                    0,
                                    i as int,
                                )[j]);
                            }
                        }
                    }
                },
                TagValue::Unsupported => {
                    assert(!(t.values@[i as int] is Id));
                    assert(!all_ids(t.values@));
                    return Err(MigrateError::UnsupportedTagEntry);
                },
            }
            i = i + 1;
        }
        assert(t.values@.subrange(0, t.values@.len() as int) =~= t.values@);
        let p = tag_path(rel);
        let decl = tag_declaration_text(&p, tag_type, t.replace, &ids);
        let content = tag_file(self.version.as_str(), source, namespace, &decl);
        let path = tag_output(namespace, tag_type, &p);
        self.write(&path, &content)
    }

    /// Adds the tag file at `file`, found under the directory `root` of its
    /// type `tag_type`.
    pub fn migrate_tag(
        &mut self,
        namespace: &str,
        tag_type: &str,
        file: &str,
        root: &str,
        tag: &Option<TagSource>,
    ) -> (r: Result<(), MigrateError>)
        requires
            old(self).wf(),
        ensures
            old(self).wrote(
                final(self),
                r,
                located_tag_outcome(old(self).tool_version(), namespace@, tag_type@, file@, root@, *tag),
            ),
    {
        match diff_paths(file, root) {
            None => Err(MigrateError::OutsideRoot),
            Some(rel) => self.add_tag(namespace, tag_type, rel.as_str(), file, tag),
        }
    }

    /// Copies the folder `folder`, read from the subdirectory `subdir` of
    /// `namespace`, into the project's assets as it is. Refused where a path
    /// of the copy would not be well formed.
    pub fn add_assets(&mut self, namespace: &str, subdir: &str, folder: VFolder) -> (r: Result<
        (),
        MigrateError,
    >)
        requires
            old(self).wf(),
        ensures
            final(self).tool_version() == old(self).tool_version(),
            final(self).wf(),
            well_formed_path(asset_path(namespace@, subdir@)) && folder_well_formed(folder) ==> {
                &&& r is Ok
                &&& final(self).copied_assets()
                &&& final(self).text_files() == graft(
                    old(self).text_files(),
                    asset_path(namespace@, subdir@),
                    vfolder_text_files(folder),
                )
                &&& final(self).binary_files() == graft(
                    old(self).binary_files(),
                    asset_path(namespace@, subdir@),
                    vfolder_binary_files(folder),
                )
            },
            !(well_formed_path(asset_path(namespace@, subdir@)) && folder_well_formed(folder)) ==> {
                &&& r == Err::<(), MigrateError>(MigrateError::InvalidPath)
                &&& *final(self) == *old(self)
            },
    {
        let mut at: Vec<char> = Vec::new();
        push_str(&mut at, "assets/data/");
        push_str(&mut at, namespace);
        push_str(&mut at, "/");
        push_str(&mut at, subdir);
        assert(at@ =~= asset_path(namespace@, subdir@));
        if !is_well_formed_path(&at) {
            return Err(MigrateError::InvalidPath);
        }
        let paths = folder_paths(&folder);
        if !all_well_formed(&paths) {
            proof {
                let sv = string_views(paths@);
                let j = choose|j: int| 0 <= j < sv.len() && !well_formed_path(sv[j]);
                assert(sv.contains(sv[j]));
            }
            return Err(MigrateError::InvalidPath);
        }
        proof {
            let sv = string_views(paths@);
            assert forall|k: Seq<char>|
                #[trigger] vfolder_text_files(folder).dom().contains(k) implies well_formed_path(k) by {
                assert(sv.contains(k));
            }
            assert forall|k: Seq<char>|
                #[trigger] vfolder_binary_files(folder).dom().contains(k) implies well_formed_path(k) by {
                assert(sv.contains(k));
            }
            lemma_graft_well_formed(vfolder_text_files(self.root), at@, vfolder_text_files(folder));
            lemma_graft_well_formed(vfolder_binary_files(self.root), at@, vfolder_binary_files(folder));
        }
        let path = string_of(&at);
        add_subfolder(&mut self.root, path.as_str(), folder);
        self.uses_assets = true;
        Ok(())
    }
    /// Migrates the files of a pack in order: the run of `files` from this
    /// state. A refused tag is skipped, and its index is listed in the
    /// result; a refused function or asset folder stops the run with its
    /// error, the files before it kept.
    pub fn migrate_all(&mut self, files: Vec<SourceFile>) -> (r: Result<Vec<usize>, MigrateError>)
        requires
            old(self).wf(),
        ensures
            final(self).wf(),
            final(self).tool_version() == old(self).tool_version(),
            ({
                let end = run(old(self).tool_version(), old(self).state(), files@);
                &&& final(self).text_files() == end.0
                &&& final(self).binary_files() == end.1
                &&& final(self).copied_assets() == end.2
                &&& match end.3 {
                    Some(e) => r == Err::<Vec<usize>, MigrateError>(e),
                    None => r is Ok,
                }
            }),
            r matches Ok(skipped) ==> forall|j: int|
                0 <= j < skipped@.len() ==> skipped@[j] < files@.len() && files@[skipped@[j] as int] is Tag,
    {
        let ghost all = files@;
        let ghost v = self.version@;
        let ghost st0 = old(self).state();
        let n = files.len();
        let mut rest = files;
        let mut skipped: Vec<usize> = Vec::new();
        let mut idx: usize = 0;
        proof {
            assert(all.subrange(0, 0) =~= Seq::<SourceFile>::empty());
        }
        while rest.len() > 0
            invariant
                idx + rest@.len() == all.len(),
                all.len() == n,
                all == files@,
                st0 == old(self).state(),
                rest@ == all.subrange(idx as int, all.len() as int),
                self.wf(),
                self.tool_version() == v,
                v == old(self).tool_version(),
                run(v, st0, all.subrange(0, idx as int)) == self.state(),
                forall|j: int|
                    0 <= j < skipped@.len() ==> skipped@[j] < idx && all[skipped@[j] as int] is Tag,
            decreases rest@.len(),
        {
            let e = rest.remove(0);
            let ghost before = self.state();
            proof {
                assert(all[idx as int] == e);
                assert(all.subrange(0, idx + 1).drop_last() =~= all.subrange(0, idx as int));
                assert(run(v, st0, all.subrange(0, idx + 1)) == run_step(v, before, e));
            }
            match e {
                SourceFile::Function { namespace, file, root, text } => {
                    let r = self.migrate_function(namespace.as_str(), file.as_str(), root.as_str(), text.as_str());
                    if let Err(err) = r {
                        proof {
                            assert(located_function_outcome(v, namespace@, file@, root@, text@)
                                == Err::<(Seq<char>, Seq<char>), MigrateError>(err));
                            assert(run(v, st0, all.subrange(0, idx + 1)) == (
                                before.0,
                                before.1,
                                before.2,
                                Some(err),
                            ));
                            lemma_run_stops(v, st0, all, idx + 1);
                        }
                        return Err(err);
                    }
                },
                SourceFile::Tag { namespace, tag_type, file, root, tag } => {
                    let r = self.migrate_tag(namespace.as_str(), tag_type.as_str(), file.as_str(), root.as_str(), &tag);
                    if r.is_err() {
                        skipped.push(idx);
                    }
                },
                SourceFile::Assets { namespace, subdir, folder } => {
                    let r = self.add_assets(namespace.as_str(), subdir.as_str(), folder);
                    if let Err(err) = r {
                        proof {
                            assert(err == MigrateError::InvalidPath);
                            assert(run(v, st0, all.subrange(0, idx + 1)) == (
                                before.0,
                                before.1,
                                before.2,
                                Some(err),
                            ));
                            lemma_run_stops(v, st0, all, idx + 1);
                        }
                        return Err(err);
                    }
                },
            }
            proof {
                assert(self.state() =~= run(v, st0, all.subrange(0, idx + 1)));
            }
            idx = idx + 1;
        }
        proof {
            assert(all.subrange(0, all.len() as int) =~= all);
        }
        Ok(skipped)
    }

    /// The configuration of the produced project: named `name`, with the
    /// pack's description and format, and the assets folder where some asset
    /// folder was copied.
    pub fn project_config(&self, name: &str, meta: &PackMeta) -> (r: ProjectConfig)
        ensures
            r.pack.name@ == name@,
            r.pack.description@ == meta.description@,
            r.pack.pack_format == meta.pack_format,
            r.pack.version@ == PackConfig::INITIAL_VERSION@,
            self.copied_assets() ==> (r.compiler matches Some(c) && c.assets matches Some(a)
                && a@ == "./assets"@),
            !self.copied_assets() ==> r.compiler is None,
    {
        let compiler = if self.uses_assets {
            Some(CompilerConfig { assets: Some("./assets".to_owned()) })
        } else {
            None
        };
        ProjectConfig {
            pack: PackConfig {
                name: name.to_owned(),
                description: meta.description.clone(),
                pack_format: meta.pack_format,
                version: PackConfig::INITIAL_VERSION.to_owned(),
            },
            compiler,
        }
    }

    /// Places the configuration text `text` at the root of the project.
    pub fn add_config(&mut self, text: String)
        requires
            old(self).wf(),
        ensures
            final(self).wf(),
            final(self).tool_version() == old(self).tool_version(),
            final(self).copied_assets() == old(self).copied_assets(),
            final(self).text_files() == old(self).text_files().insert(config_path(), text@),
            final(self).binary_files() == old(self).binary_files().remove(config_path()),
    {
        let mut p: Vec<char> = Vec::new();
        push_str(&mut p, "pack.toml");
        proof {
            reveal_strlit("pack.toml");
            assert(well_formed_path(p@));
        }
        let written = self.write(&p, &chars_of(text.as_str()));
        assert(written is Ok);
    }

    /// The finished project tree.
    pub fn into_tree(self) -> (r: VFolder)
        ensures
            vfolder_text_files(r) == self.text_files(),
            vfolder_binary_files(r) == self.binary_files(),
    {
        self.root
    }
}

} // verus!
