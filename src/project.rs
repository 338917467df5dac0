//! Locating a project's configuration and deciding what `clean` removes.

use vstd::prelude::*;
use crate::error::Error;
use crate::paths::{join_path, joined};

verus! {

/// What is known of a path given on the command line.
pub struct PathState {
    pub exists: bool,
    pub is_dir: bool,
    pub is_file: bool,
    /// The path's last component, where it has one.
    pub file_name: Option<String>,
    /// For a directory: whether it holds a `pack.toml`.
    pub holds_config: bool,
}

/// Where a project's `pack.toml` lies, relative to the given path.
#[derive(Debug, Clone, Copy, PartialEq, Eq, Structural)]
pub enum ConfigAt {
    /// In the given directory.
    InDirectory,
    /// The given path is the file itself.
    ThisFile,
}

/// A path names a project where it is a directory holding `pack.toml`, or
/// is that file itself; anything else is an error naming the path.
pub fn config_location(path: &str, state: &PathState) -> (r: Result<ConfigAt, Error>)
    ensures
        !state.exists ==> (r matches Err(Error::PathNotFoundError(p)) && p@ == path@),
        state.exists && state.is_dir ==> if state.holds_config {
            r == Ok::<ConfigAt, Error>(ConfigAt::InDirectory)
        } else {
            r matches Err(Error::InvalidPackPathError(p)) && p@ == path@
        },
        state.exists && !state.is_dir ==> if state.is_file && (state.file_name matches Some(n) && n@
            == "pack.toml"@) {
            r == Ok::<ConfigAt, Error>(ConfigAt::ThisFile)
        } else {
            r matches Err(Error::InvalidPackPathError(p)) && p@ == path@
        },
{
    if !state.exists {
        return Err(Error::PathNotFoundError(path.to_owned()));
    }
    if state.is_dir {
        if state.holds_config {
            Ok(ConfigAt::InDirectory)
        } else {
            Err(Error::InvalidPackPathError(path.to_owned()))
        }
    } else {
        let named = match &state.file_name {
            Some(n) => crate::text::is_word(&crate::text::chars_of(n.as_str()), "pack.toml"),
            None => false,
        };
        if state.is_file && named {
            Ok(ConfigAt::ThisFile)
        } else {
            Err(Error::InvalidPackPathError(path.to_owned()))
        }
    }
}

/// What `clean` removes from the output directory `dist`: all of it where
/// `all` and `force` are both set, nothing where only `all` is, and else the
/// pack's folder and zip file. The flag says that `all` was refused.
pub fn clean_targets(all: bool, force: bool, dist: &str, pack_name: &str) -> (r: (Vec<String>, bool))
    ensures
        all && force ==> r.0@.len() == 1 && r.0@[0]@ == dist@ && !r.1,
        all && !force ==> r.0@.len() == 0 && r.1,
        !all ==> r.0@.len() == 2 && r.0@[0]@ == joined(dist@, pack_name@) && r.0@[1]@ == joined(
            dist@,
            pack_name@ + ".zip"@,
        ) && !r.1,
{
    let mut out: Vec<String> = Vec::new();
    if all {
        if force {
            out.push(dist.to_owned());
            (out, false)
        } else {
            (out, true)
        }
    } else {
        out.push(join_path(dist, pack_name));
        let mut zip = crate::text::chars_of(pack_name);
        crate::text::push_str(&mut zip, ".zip");
        let zip_name = crate::text::string_of(&zip);
        out.push(join_path(dist, zip_name.as_str()));
        (out, false)
    }
}

/// After cleaning, the output directory itself goes where it is an empty
/// directory not called `datapacks`.
pub fn removes_dist(is_dir: bool, file_name: &Option<String>, is_empty: bool) -> (r: bool)
    ensures
        r == (is_dir && is_empty && (*file_name matches Some(n) && n@ != "datapacks"@)),
{
    if !is_dir || !is_empty {
        return false;
    }
    match file_name {
        Some(n) => !crate::text::is_word(&crate::text::chars_of(n.as_str()), "datapacks"),
        None => false,
    }
}

/// The name of a build's output in the output directory: the pack's name,
/// with `.zip` where the build is packaged.
pub fn output_name(pack_name: &str, zip: bool) -> (r: String)
    ensures
        zip ==> r@ == pack_name@ + ".zip"@,
        !zip ==> r@ == pack_name@,
{
    let mut out = crate::text::chars_of(pack_name);
    if zip {
        crate::text::push_str(&mut out, ".zip");
    }
    crate::text::string_of(&out)
}

/// The folder copied into a build: the one given on the command line, else
/// the configured one, taken relative to the project.
pub fn assets_source(given: &Option<String>, configured: &Option<String>, project: &str) -> (r:
    Option<String>)
    ensures
        given matches Some(g) ==> (r matches Some(a) && a@ == g@),
        given is None ==> match configured {
            Some(c) => r matches Some(a) && a@ == joined(project@, c@),
            None => r is None,
        },
{
    match given {
        Some(g) => Some(g.clone()),
        None => match configured {
            Some(c) => Some(join_path(project, c.as_str())),
            None => None,
        },
    }
}

/// The identifier of a script file: its stem, after the name of the folder
/// that holds it where that folder lies below the source root.
pub fn script_identifier(folder: &Option<String>, stem: &str) -> (r: String)
    ensures
        match folder {
            Some(f) => r@ == f@ + "/"@ + stem@,
            None => r@ == stem@,
        },
{
    match folder {
        Some(f) => {
            let mut out = crate::text::chars_of(f.as_str());
            crate::text::push_str(&mut out, "/");
            crate::text::push_str(&mut out, stem);
            crate::text::string_of(&out)
        },
        None => stem.to_owned(),
    }
}

} // verus!
