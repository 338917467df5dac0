//! Scaffolding of a new project: what `init` decides before anything is
//! written.

use vstd::prelude::*;
use crate::config::{PackConfig, ProjectConfig};
use crate::error::Error;

verus! {

/// The version control system a new project is put under.
#[derive(Debug, Clone, Copy, PartialEq, Eq, Structural)]
pub enum VersionControlSystem {
    Git,
    Disabled,
}

impl VersionControlSystem {
    /// The name by which the command line refers to the system.
    pub fn name(&self) -> (r: &'static str)
        ensures
            *self == VersionControlSystem::Git ==> r@ == "git"@,
            *self == VersionControlSystem::Disabled ==> r@ == "none"@,
    {
        match self {
            VersionControlSystem::Git => "git",
            VersionControlSystem::Disabled => "none",
        }
    }
}

impl Default for VersionControlSystem {
    fn default() -> (r: Self)
        ensures
            r == VersionControlSystem::Git,
    {
        VersionControlSystem::Git
    }
}

/// The options of `init`.
#[derive(Debug, Clone)]
pub struct InitArgs {
    /// The folder to initialise in.
    pub path: String,
    pub name: Option<String>,
    pub description: Option<String>,
    pub pack_format: Option<u8>,
    pub icon_path: Option<String>,
    /// Go on even where the folder is missing or not empty.
    pub force: bool,
    pub vcs: Option<VersionControlSystem>,
    pub verbose: bool,
    /// Ask nothing; fail where a question would be needed.
    pub batch: bool,
}

/// What is known of the target folder before `init` decides.
pub struct TargetState {
    pub exists: bool,
    pub is_dir: bool,
    pub is_empty: bool,
    /// The folder's last path component, where it has one.
    pub file_name: Option<String>,
}

/// What `init` is to create.
pub struct InitPlan {
    /// The target folder must be created first.
    pub create_dir: bool,
    /// The content of `pack.toml`.
    pub config: ProjectConfig,
    /// The namespace of the generated main file.
    pub namespace: String,
    /// The icon to copy; the default icon where `None`.
    pub icon_path: Option<String>,
    pub vcs: VersionControlSystem,
}

/// The lower-case form of a string, as `str::to_lowercase` computes it.
pub uninterp spec fn lower_of(s: Seq<char>) -> Seq<char>;

/// Relies on `str::to_lowercase`: the result depends on the characters alone.
#[verifier::external_body]
fn lowercase(s: &str) -> (r: String)
    ensures
        r@ == lower_of(s@),
{
    s.to_lowercase()
}

/// Characters that may stand in a namespace as they are.
pub open spec fn is_namespace_char(c: char) -> bool {
    ('0' <= c && c <= '9') || ('a' <= c && c <= 'z') || c == '_' || c == '-' || c == '.'
}

/// ASCII punctuation, as `char::is_ascii_punctuation` decides it.
pub open spec fn is_ascii_punctuation(c: char) -> bool {
    ('!' <= c && c <= '/') || (':' <= c && c <= '@') || ('[' <= c && c <= '`') || ('{' <= c && c
        <= '~')
}

/// ASCII whitespace, as `char::is_ascii_whitespace` decides it.
pub open spec fn is_ascii_whitespace(c: char) -> bool {
    c == ' ' || c == '\t' || c == '\n' || c == '\x0C' || c == '\r'
}

/// What a character of a name becomes in a namespace: kept where valid,
/// ASCII capitals lowered, other punctuation `-`, whitespace `_`, anything
/// else dropped.
pub open spec fn namespace_char(c: char) -> Option<char> {
    if is_namespace_char(c) {
        Some(c)
    } else if 'A' <= c && c <= 'Z' {
        Some(((c as u8) + 32) as char)
    } else if is_ascii_punctuation(c) {
        Some('-')
    } else if is_ascii_whitespace(c) {
        Some('_')
    } else {
        None
    }
}

/// The namespace made of the characters of `s`.
pub open spec fn namespace_of(s: Seq<char>) -> Seq<char>
    decreases s.len(),
{
    if s.len() == 0 {
        Seq::empty()
    } else {
        match namespace_char(s.last()) {
            Some(c) => namespace_of(s.drop_last()).push(c),
            None => namespace_of(s.drop_last()),
        }
    }
}

/// The namespace made of an already lower-cased name.
pub fn namespace_from_lowercase(lowered: &str) -> (r: String)
    ensures
        r@ == namespace_of(lowered@),
{
    let s = crate::text::chars_of(lowered);
    let mut out: Vec<char> = Vec::new();
    let mut i: usize = 0;
    while i < s.len()
        invariant
            i <= s@.len(),
            s@ == lowered@,
            out@ == namespace_of(s@.subrange(0, i as int)),
        decreases s@.len() - i,
    {
        let c = s[i];
        assert(s@.subrange(0, i + 1).drop_last() =~= s@.subrange(0, i as int));
        if ('0' <= c && c <= '9') || ('a' <= c && c <= 'z') || c == '_' || c == '-' || c == '.' {
            out.push(c);
        } else if 'A' <= c && c <= 'Z' {
            out.push(((c as u8) + 32) as char);
        } else if ('!' <= c && c <= '/') || (':' <= c && c <= '@') || ('[' <= c && c <= '`') || (
        '{' <= c && c <= '~') {
            out.push('-');
        } else if c == ' ' || c == '\t' || c == '\n' || c == '\x0C' || c == '\r' {
            out.push('_');
        }
        i = i + 1;
    }
    assert(s@.subrange(0, s@.len() as int) =~= s@);
    crate::text::string_of(&out)
}

/// The namespace derived from a project name: the name lower-cased, then
/// each character mapped as `namespace_char` says.
pub fn name_to_namespace(name: &str) -> (r: String)
    ensures
        r@ == namespace_of(lower_of(name@)),
{
    let lowered = lowercase(name);
    namespace_from_lowercase(lowered.as_str())
}

/// The project name: the given one, else the target folder's name.
pub open spec fn chosen_name(args: InitArgs, target: TargetState) -> Option<Seq<char>> {
    match args.name {
        Some(n) => Some(n@),
        None => match target.file_name {
            Some(f) => Some(f@),
            None => None,
        },
    }
}

/// The error `init` stops with, if any. In batch mode a missing folder is an
/// error unless forced, and so is a non-empty one. Without batch mode the
/// questions about both were already answered yes.
pub open spec fn init_refusal(args: InitArgs, target: TargetState) -> Option<Error> {
    if !target.exists {
        if args.batch && !args.force {
            Some(Error::PathNotFoundError(args.path))
        } else {
            None
        }
    } else if !target.is_dir {
        Some(Error::NotDirectoryError(args.path))
    } else if args.batch && !args.force && !target.is_empty {
        Some(Error::NonEmptyDirectoryError(args.path))
    } else {
        None
    }
}

fn copy_opt(o: &Option<String>) -> (r: Option<String>)
    ensures
        match (o, r) {
            (Some(a), Some(b)) => a@ == b@,
            (None, None) => true,
            _ => false,
        },
{
    match o {
        Some(s) => Some(s.clone()),
        None => None,
    }
}

/// Decides what a new project in the target folder consists of: whether the
/// folder is created, the configuration (defaults where no value is given),
/// the namespace of the main file, the icon and the version control system.
pub fn init(args: &InitArgs, target: &TargetState) -> (r: Result<InitPlan, Error>)
    ensures
        match init_refusal(*args, *target) {
            Some(e) => r matches Err(f) && match (e, f) {
                (Error::PathNotFoundError(a), Error::PathNotFoundError(b)) => a@ == b@,
                (Error::NotDirectoryError(a), Error::NotDirectoryError(b)) => a@ == b@,
                (Error::NonEmptyDirectoryError(a), Error::NonEmptyDirectoryError(b)) => a@ == b@,
                _ => false,
            },
            None => r matches Ok(plan) && {
                &&& plan.create_dir == !target.exists
                &&& plan.config.pack.name@ == match chosen_name(*args, *target) {
                    Some(n) => n,
                    None => PackConfig::DEFAULT_NAME@,
                }
                &&& plan.config.pack.description@ == match args.description {
                    Some(d) => d@,
                    None => PackConfig::DEFAULT_DESCRIPTION@,
                }
                &&& plan.config.pack.pack_format == match args.pack_format {
                    Some(f) => f,
                    None => 48u8,
                }
                &&& plan.config.pack.version@ == PackConfig::INITIAL_VERSION@
                &&& plan.config.compiler is None
                &&& plan.namespace@ == namespace_of(lower_of(plan.config.pack.name@))
                &&& plan.vcs == match args.vcs {
                    Some(v) => v,
                    None => VersionControlSystem::Git,
                }
                &&& match (args.icon_path, plan.icon_path) {
                    (Some(a), Some(b)) => a@ == b@,
                    (None, None) => true,
                    _ => false,
                }
            },
        },
{
    if !target.exists {
        if args.batch && !args.force {
            return Err(Error::PathNotFoundError(args.path.clone()));
        }
    } else if !target.is_dir {
        return Err(Error::NotDirectoryError(args.path.clone()));
    } else if args.batch && !args.force && !target.is_empty {
        return Err(Error::NonEmptyDirectoryError(args.path.clone()));
    }
    let mut config = ProjectConfig::default();
    match &args.name {
        Some(n) => {
            config.pack.name = n.clone();
        },
        None => match &target.file_name {
            Some(f) => {
                config.pack.name = f.clone();
            },
            None => {},
        },
    }
    match &args.description {
        Some(d) => {
            config.pack.description = d.clone();
        },
        None => {},
    }
    match args.pack_format {
        Some(f) => {
            config.pack.pack_format = f;
        },
        None => {},
    }
    let namespace = name_to_namespace(config.pack.name.as_str());
    let vcs = match args.vcs {
        Some(v) => v,
        None => VersionControlSystem::Git,
    };
    Ok(InitPlan {
        create_dir: !target.exists,
        config,
        namespace,
        icon_path: copy_opt(&args.icon_path),
        vcs,
    })
}

/// The main file of a new project: a namespace declaration and a function
/// run when the pack loads.
pub open spec fn main_file_spec(namespace: Seq<char>) -> Seq<char> {
    "namespace \""@ + namespace + "\";\n\n#[load]\nfn main() {\n    /say Hello, world!\n}\n"@
}

/// The text of the main file of a new project in `namespace`.
pub fn main_file_text(namespace: &str) -> (r: String)
    ensures
        r@ == main_file_spec(namespace@),
{
    let mut out: Vec<char> = Vec::new();
    crate::text::push_str(&mut out, "namespace \"");
    crate::text::push_str(&mut out, namespace);
    crate::text::push_str(&mut out, "\";\n\n#[load]\nfn main() {\n    /say Hello, world!\n}\n");
    assert(out@ =~= main_file_spec(namespace@));
    crate::text::string_of(&out)
}

} // verus!
