use shulkerscript_cli::cli::{Args, Command, DumpState, MigrateArgs, TracingLevel};
use shulkerscript_cli::config::{PackConfig, ProjectConfig};
use shulkerscript_cli::error::Error;
use shulkerscript_cli::init::{
    init, name_to_namespace, namespace_from_lowercase, InitArgs, TargetState, VersionControlSystem,
};
use shulkerscript_cli::init::main_file_text;
use shulkerscript_cli::paths::{first_marked, locate_root, marker_paths, pick_root, relativize};
use shulkerscript_cli::project::{
    assets_source, clean_targets, config_location, output_name, removes_dist, script_identifier,
    ConfigAt, PathState,
};
use shulkerscript_cli::watch::{first_step, next_step, RunStep};
use shulkerscript_cli::util::{get_project_path, PathAutocomplete};

fn args(batch: bool, force: bool) -> InitArgs {
    InitArgs {
        path: "proj".to_string(),
        name: None,
        description: None,
        pack_format: None,
        icon_path: None,
        force,
        vcs: None,
        verbose: false,
        batch,
    }
}

fn target(exists: bool, is_dir: bool, is_empty: bool) -> TargetState {
    TargetState { exists, is_dir, is_empty, file_name: Some("My Pack".to_string()) }
}

#[test]
fn verify_cli() {
    assert_eq!(TracingLevel::default(), TracingLevel::Info);
    assert_eq!(DumpState::default(), DumpState::Ast);
    assert_eq!(VersionControlSystem::default(), VersionControlSystem::Git);
    assert_eq!(VersionControlSystem::Git.name(), "git");
    assert_eq!(VersionControlSystem::Disabled.name(), "none");
    let a = Args {
        cmd: Command::Migrate(MigrateArgs { path: ".".to_string(), target: "out".to_string(), force: false }),
        trace: None,
    };
    assert!(matches!(a.cmd, Command::Migrate(ref m) if m.path == "." && !m.force));
}

#[test]
fn default_config() {
    let c = ProjectConfig::default();
    assert_eq!(c.pack.name, PackConfig::DEFAULT_NAME);
    assert_eq!(c.pack.description, "A Minecraft datapack created with shulkerscript");
    assert_eq!(c.pack.pack_format, 48);
    assert_eq!(PackConfig::default_pack_format(), 48);
    assert_eq!(c.pack.version, "0.1.0");
    assert!(c.compiler.is_none());
}

#[test]
fn namespace_from_name() {
    assert_eq!(name_to_namespace("My Pack!"), "my_pack-");
    assert_eq!(name_to_namespace("shulkerscript-pack"), "shulkerscript-pack");
    assert_eq!(name_to_namespace("a.b_c\t\u{e9}"), "a.b_c_");
    assert_eq!(name_to_namespace("\u{212A}"), "k");
    assert_eq!(namespace_from_lowercase("AB?"), "ab-");
}

#[test]
fn batch_init_refusals() {
    let e = init(&args(true, false), &target(false, false, true)).err();
    assert_eq!(e, Some(Error::PathNotFoundError("proj".to_string())));
    let e = init(&args(true, false), &target(true, false, true)).err();
    assert_eq!(e, Some(Error::NotDirectoryError("proj".to_string())));
    let e = init(&args(true, false), &target(true, true, false)).err();
    assert_eq!(e, Some(Error::NonEmptyDirectoryError("proj".to_string())));
    let e = init(&args(false, false), &target(true, false, true)).err();
    assert_eq!(e, Some(Error::NotDirectoryError("proj".to_string())));
}

#[test]
fn batch_init_plan() {
    let plan = init(&args(true, true), &target(false, false, true)).ok().unwrap();
    assert!(plan.create_dir);
    assert_eq!(plan.config.pack.name, "My Pack");
    assert_eq!(plan.namespace, "my_pack");
    assert_eq!(plan.config.pack.pack_format, 48);
    assert_eq!(plan.vcs, VersionControlSystem::Git);
    assert!(plan.icon_path.is_none());

    let mut a = args(true, false);
    a.name = Some("Other".to_string());
    a.description = Some("desc".to_string());
    a.pack_format = Some(10);
    a.vcs = Some(VersionControlSystem::Disabled);
    a.icon_path = Some("icon.png".to_string());
    let plan = init(&a, &target(true, true, true)).ok().unwrap();
    assert!(!plan.create_dir);
    assert_eq!(plan.config.pack.name, "Other");
    assert_eq!(plan.config.pack.description, "desc");
    assert_eq!(plan.config.pack.pack_format, 10);
    assert_eq!(plan.namespace, "other");
    assert_eq!(plan.vcs, VersionControlSystem::Disabled);
    assert_eq!(plan.icon_path.as_deref(), Some("icon.png"));
}

#[test]
fn init_without_folder_name_uses_default() {
    let t = TargetState { exists: true, is_dir: true, is_empty: true, file_name: None };
    let plan = init(&args(true, false), &t).ok().unwrap();
    assert_eq!(plan.config.pack.name, "shulkerscript-pack");
    assert_eq!(plan.namespace, "shulkerscript-pack");
}

#[test]
fn split_typed_paths() {
    let s = |i: &str| PathAutocomplete::split_input(i);
    assert_eq!(s("src/ma"), ("src".to_string(), "ma".to_string()));
    assert_eq!(s("src/"), ("src".to_string(), "".to_string()));
    assert_eq!(s("src//"), ("src".to_string(), "".to_string()));
    assert_eq!(s("/etc"), ("/".to_string(), "etc".to_string()));
    assert_eq!(s("icon"), (".".to_string(), "icon".to_string()));
    assert_eq!(s(""), (".".to_string(), "".to_string()));
    assert_eq!(s("a/b/c"), ("a/b".to_string(), "c".to_string()));
}

#[test]
fn completion_suggestions() {
    let mut ac = PathAutocomplete::new();
    assert!(!ac.has_listing("src"));
    assert!(!ac.update_input("src/m"));
    ac.cache_listing("src", vec!["main.shu".to_string(), "lib/".to_string(), "more.shu".to_string()]);
    assert!(ac.has_listing("src"));
    assert!(ac.update_input("src/ma"));
    assert_eq!(ac.outputs(), vec!["main.shu".to_string()]);
    assert!(ac.update_input("src/m"));
    assert_eq!(ac.outputs(), vec!["main.shu".to_string(), "more.shu".to_string()]);
    assert!(ac.update_input("src/"));
    assert_eq!(ac.outputs().len(), 3);
}

#[test]
fn relative_paths() {
    assert_eq!(relativize("/a/b/c", "/a").as_deref(), Some("b/c"));
    assert_eq!(relativize("/a/x", "/a/b").as_deref(), Some("../x"));
    assert_eq!(relativize("rel", "/abs"), None);
}

#[test]
fn no_project_above_missing_path() {
    assert_eq!(get_project_path("/nonexistent-dir-for-lookup/inner", "/"), None);
}

#[test]
fn completion_of_typed_paths() {
    let mut ac = PathAutocomplete::new();
    assert_eq!(ac.get_completion("src/ma", None), Err(()));
    ac.cache_listing("src", vec!["lib/".to_string(), "main.shu".to_string(), "more.shu".to_string()]);
    assert_eq!(ac.get_completion("src/m", None), Ok(Some("src/main.shu".to_string())));
    assert_eq!(ac.get_completion("src/x", None), Ok(None));
    assert_eq!(ac.get_completion("src/x", Some("lib/".to_string())), Ok(Some("src/lib/".to_string())));
    assert_eq!(ac.first_match("src", "mo").as_deref(), Some("more.shu"));
}

#[test]
fn main_file_template() {
    assert_eq!(
        main_file_text("my_pack"),
        "namespace \"my_pack\";\n\n#[load]\nfn main() {\n    /say Hello, world!\n}\n"
    );
}

#[test]
fn command_round_order() {
    assert_eq!(first_step(2, false, 1), RunStep::Internal(0));
    assert_eq!(first_step(2, true, 1), RunStep::Shell(0));
    assert_eq!(first_step(0, false, 0), RunStep::Done);
    assert_eq!(next_step(RunStep::Internal(0), true, 2, 1), RunStep::Internal(1));
    assert_eq!(next_step(RunStep::Internal(1), true, 2, 1), RunStep::Shell(0));
    assert_eq!(next_step(RunStep::Internal(0), false, 2, 1), RunStep::Done);
    assert_eq!(next_step(RunStep::Shell(0), true, 2, 1), RunStep::Done);
    assert_eq!(next_step(RunStep::Shell(0), true, 2, 3), RunStep::Shell(1));
}

fn state(exists: bool, is_dir: bool, is_file: bool, name: &str, holds: bool) -> PathState {
    PathState { exists, is_dir, is_file, file_name: Some(name.to_string()), holds_config: holds }
}

#[test]
fn project_config_location() {
    assert_eq!(config_location("p", &state(true, true, false, "p", true)), Ok(ConfigAt::InDirectory));
    assert_eq!(config_location("p/pack.toml", &state(true, false, true, "pack.toml", false)), Ok(ConfigAt::ThisFile));
    assert_eq!(
        config_location("p", &state(false, false, false, "p", false)),
        Err(Error::PathNotFoundError("p".to_string()))
    );
    assert_eq!(
        config_location("p", &state(true, true, false, "p", false)),
        Err(Error::InvalidPackPathError("p".to_string()))
    );
    assert_eq!(
        config_location("p/x.toml", &state(true, false, true, "x.toml", false)),
        Err(Error::InvalidPackPathError("p/x.toml".to_string()))
    );
}

#[test]
fn clean_removal_targets() {
    let (t, refused) = clean_targets(false, false, "/p/dist", "pack");
    assert_eq!(t, vec!["/p/dist/pack".to_string(), "/p/dist/pack.zip".to_string()]);
    assert!(!refused);
    let (t, refused) = clean_targets(true, false, "/p/dist", "pack");
    assert!(t.is_empty() && refused);
    let (t, refused) = clean_targets(true, true, "/p/dist", "pack");
    assert_eq!(t, vec!["/p/dist".to_string()]);
    assert!(!refused);
    assert!(removes_dist(true, &Some("dist".to_string()), true));
    assert!(!removes_dist(true, &Some("datapacks".to_string()), true));
    assert!(!removes_dist(true, &Some("dist".to_string()), false));
    assert!(!removes_dist(false, &None, true));
}

#[test]
fn build_output_names() {
    assert_eq!(output_name("pack", true), "pack.zip");
    assert_eq!(output_name("pack", false), "pack");
    assert_eq!(script_identifier(&Some("util".to_string()), "math"), "util/math");
    assert_eq!(script_identifier(&None, "main"), "main");
    let given = Some("/x/assets".to_string());
    let configured = Some("assets".to_string());
    assert_eq!(assets_source(&given, &configured, "/p").as_deref(), Some("/x/assets"));
    assert_eq!(assets_source(&None, &configured, "/p").as_deref(), Some("/p/assets"));
    assert_eq!(assets_source(&None, &None, "/p"), None);
}

#[test]
fn root_search_picks_deepest_marked_ancestor() {
    assert_eq!(first_marked(&vec![false, true, true]), Some(1));
    assert_eq!(first_marked(&vec![false, false]), None);
    let anc = vec!["/a/b".to_string(), "/a".to_string(), "/".to_string()];
    assert_eq!(
        marker_paths(&anc, "pack.toml"),
        vec!["/a/b/pack.toml".to_string(), "/a/pack.toml".to_string(), "/pack.toml".to_string()]
    );
    assert_eq!(pick_root(&anc, &vec![false, true, true], "/a").as_deref(), Some(""));
    assert_eq!(pick_root(&anc, &vec![true, false, false], "/a").as_deref(), Some("b"));
    assert_eq!(pick_root(&anc, &vec![false, false, false], "/a"), None);
}

#[test]
fn root_search_needs_absolute_start() {
    assert_eq!(locate_root("rel/path", "also/relative", "pack.toml"), None);
    assert_eq!(get_project_path("rel", "cwd"), None);
}
