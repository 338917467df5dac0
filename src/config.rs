//! The project configuration held in a project's `pack.toml`.

use vstd::prelude::*;

verus! {

/// Relies on `shulkerbox::datapack::Datapack::LATEST_FORMAT`, the newest pack
/// format that shulkerbox knows (48 in the version used here).
#[verifier::external_body]
fn latest_pack_format() -> (r: u8)
    ensures
        r == 48,
{
    shulkerbox::datapack::Datapack::LATEST_FORMAT
}

/// The whole configuration of a project.
pub struct ProjectConfig {
    pub pack: PackConfig,
    pub compiler: Option<CompilerConfig>,
}

/// The `[pack]` section: what the produced data pack is called and for which
/// pack format it is made.
pub struct PackConfig {
    pub name: String,
    pub description: String,
    pub pack_format: u8,
    pub version: String,
}

/// The `[compiler]` section.
pub struct CompilerConfig {
    /// A folder whose files and subfolders are copied to the root of the data pack.
    pub assets: Option<String>,
}

impl PackConfig {
    pub const DEFAULT_NAME: &'static str = "shulkerscript-pack";

    pub const DEFAULT_DESCRIPTION: &'static str = "A Minecraft datapack created with shulkerscript";

    pub const INITIAL_VERSION: &'static str = "0.1.0";

    /// The pack format a new project is made for: the newest one shulkerbox knows.
    pub fn default_pack_format() -> (r: u8)
        ensures
            r == 48,
    {
        latest_pack_format()
    }
}

impl Default for PackConfig {
    fn default() -> (r: Self)
        ensures
            r.name@ == PackConfig::DEFAULT_NAME@,
            r.description@ == PackConfig::DEFAULT_DESCRIPTION@,
            r.pack_format == 48,
            r.version@ == PackConfig::INITIAL_VERSION@,
    {
        PackConfig {
            name: PackConfig::DEFAULT_NAME.to_owned(),
            description: PackConfig::DEFAULT_DESCRIPTION.to_owned(),
            pack_format: PackConfig::default_pack_format(),
            version: PackConfig::INITIAL_VERSION.to_owned(),
        }
    }
}

impl Default for ProjectConfig {
    fn default() -> (r: Self)
        ensures
            r.pack.name@ == PackConfig::DEFAULT_NAME@,
            r.pack.description@ == PackConfig::DEFAULT_DESCRIPTION@,
            r.pack.pack_format == 48,
            r.pack.version@ == PackConfig::INITIAL_VERSION@,
            r.compiler is None,
    {
        ProjectConfig { pack: PackConfig::default(), compiler: None }
    }
}

} // verus!
