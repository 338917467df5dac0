//! The command line of the tool, as plain data.

use vstd::prelude::*;
use crate::init::InitArgs;

verus! {

/// The parsed command line.
#[derive(Debug, Clone)]
pub struct Args {
    pub cmd: Command,
    /// Tracing output at this level and above, where set.
    pub trace: Option<TracingLevel>,
}

/// The subcommands.
#[derive(Debug, Clone)]
pub enum Command {
    /// Initialize a new project.
    Init(InitArgs),
    /// Build the project.
    Build(BuildArgs),
    /// Clean build artifacts.
    Clean(CleanArgs),
    /// Build the project and dump the intermediate state.
    LangDebug(LangDebugArgs),
    /// Migrate a regular datapack to a Shulkerscript project.
    Migrate(MigrateArgs),
    /// Watch for changes and execute commands.
    Watch(WatchArgs),
}

/// How much tracing output to show.
#[derive(Debug, Clone, Copy, PartialEq, Eq, Structural)]
pub enum TracingLevel {
    Trace,
    Debug,
    Info,
    Warn,
    Error,
}

impl Default for TracingLevel {
    fn default() -> (r: Self)
        ensures
            r == TracingLevel::Info,
    {
        TracingLevel::Info
    }
}

/// The options of `build`.
#[derive(Debug, Clone)]
pub struct BuildArgs {
    /// The path of the project to build.
    pub path: String,
    /// The directory to place the compiled data pack in.
    pub output: Option<String>,
    /// A folder copied to the root of the data pack, in place of the
    /// configured one.
    pub assets: Option<String>,
    /// Package the project to a zip file.
    pub zip: bool,
    /// Skip checking the project against its pack format.
    pub no_validate: bool,
    /// Check that the project builds without writing anything.
    pub check: bool,
}

/// The options of `clean`.
#[derive(Debug, Clone)]
pub struct CleanArgs {
    /// The path of the project to clean.
    pub path: String,
    /// The directory where compiled data packs are placed.
    pub output: Option<String>,
    /// Clean the whole output folder.
    pub all: bool,
    pub force: bool,
    pub verbose: bool,
}

/// The options of `compile`.
#[derive(Debug, Clone)]
pub struct CompileArgs {
    /// The path of the project to compile.
    pub path: String,
}

/// The stage whose state `lang-debug` prints.
#[derive(Debug, Clone, Copy, PartialEq, Eq, Structural)]
pub enum DumpState {
    Tokens,
    Ast,
    Datapack,
}

impl Default for DumpState {
    fn default() -> (r: Self)
        ensures
            r == DumpState::Ast,
    {
        DumpState::Ast
    }
}

/// The options of `lang-debug`.
#[derive(Debug, Clone)]
pub struct LangDebugArgs {
    /// The path of the project to compile.
    pub path: String,
    pub dump: DumpState,
    /// Pretty-print the output.
    pub pretty: bool,
}

/// The options of `migrate`.
#[derive(Debug, Clone)]
pub struct MigrateArgs {
    /// The path of the data pack to migrate.
    pub path: String,
    /// The folder of the Shulkerscript project to create.
    pub target: String,
    /// Migrate even where some features of the pack will be lost.
    pub force: bool,
}

/// The options of `package`.
#[derive(Debug, Clone)]
pub struct PackageArgs {
    pub build_args: BuildArgs,
}

/// The options of `watch`.
#[derive(Debug, Clone)]
pub struct WatchArgs {
    /// The path of the project to watch.
    pub path: String,
    /// Only run after changes are seen.
    pub no_inital: bool,
    /// Milliseconds to wait after a change before running.
    pub debounce_time: u64,
    /// Further paths to watch.
    pub watch: Vec<String>,
    /// The tool's own commands to run on a change.
    pub execute: Vec<String>,
    /// Run none of the tool's own commands.
    pub no_execute: bool,
    /// Shell commands to run on a change, after the tool's own.
    pub shell: Vec<String>,
}

} // verus!
