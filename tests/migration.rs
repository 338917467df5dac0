use shulkerbox::virtual_fs::{VFile, VFolder};
use shulkerscript_cli::meta::{check_meta, is_mcmeta_compatible, MetaDoc, MigrateError, PackMeta};
use shulkerscript_cli::migrate::{
    classify_subdir, is_source_file, project_name, Migration, SourceFile, SubdirKind, TagSource,
    TagValue,
};
use shulkerscript_cli::transpile::{
    function_name, function_path, tag_declaration_text, transpile_function_body, transpile_line,
};

fn chars_of(s: &str) -> Vec<char> {
    s.chars().collect()
}

fn string_of(v: &[char]) -> String {
    v.iter().collect()
}

fn line(s: &str) -> String {
    string_of(&transpile_line(&chars_of(s)))
}

fn text_at(tree: &VFolder, path: &str) -> Option<String> {
    match tree.get_file(path) {
        Some(VFile::Text(t)) => Some(t.clone()),
        _ => None,
    }
}

fn keys(ks: &[&str]) -> Vec<String> {
    ks.iter().map(|k| k.to_string()).collect()
}

fn meta(top: Option<&[&str]>, pack: Option<&[&str]>) -> MetaDoc {
    MetaDoc {
        keys: top.map(keys),
        pack_keys: pack.map(keys),
        description: Some("A pack".to_string()),
        pack_format: Some(48),
    }
}

fn ids(vs: &[&str]) -> Vec<TagValue> {
    vs.iter().map(|v| TagValue::Id(v.to_string())).collect()
}

#[test]
fn command_line_becomes_literal_command() {
    assert_eq!(line("say hi"), "    /say hi");
}

#[test]
fn comment_becomes_doc_comment() {
    assert_eq!(line("# note"), "    /// note");
    assert_eq!(line("  # a # b"), "      /// a # b");
}

#[test]
fn blank_line_stays_blank() {
    assert_eq!(line(""), "");
    assert_eq!(line("  "), "    /  ");
}

#[test]
fn body_joins_converted_lines() {
    let body = transpile_function_body(&chars_of("say hi\r\n# note\n\ntp @s ~ ~ ~\n"));
    assert_eq!(string_of(&body), "    /say hi\n    /// note\n\n    /tp @s ~ ~ ~");
    assert_eq!(string_of(&transpile_function_body(&chars_of(""))), "");
}

#[test]
fn function_path_and_name() {
    let p = function_path("sub\\dir\\my-func.mcfunction");
    assert_eq!(string_of(&p), "sub/dir/my-func");
    assert_eq!(string_of(&function_name(&p).unwrap()), "my_func");
    assert!(function_name(&function_path("dir/.mcfunction")).is_none());
}

#[test]
fn function_file_in_namespace() {
    let mut m = Migration::new("0.1.0");
    let file = "/pack/data/ns/functions/sub/dir/my-func.mcfunction";
    let r = m.migrate_function("ns", file, "/pack/data/ns/functions", "say hi\n# note\n");
    assert_eq!(r, Ok(()));
    let tree = m.into_tree();
    let expected = "// This file was automatically migrated by ShulkerScript CLI v0.1.0 from file \"/pack/data/ns/functions/sub/dir/my-func.mcfunction\"\nnamespace \"ns\";\n\n#[deobfuscate = \"sub/dir/my-func\"]\nfn my_func() {\n    /say hi\n    /// note\n}\n";
    assert_eq!(text_at(&tree, "src/functions/ns/sub/dir/my-func.shu").as_deref(), Some(expected));
}

#[test]
fn empty_function_name_is_refused() {
    let mut m = Migration::new("0.1.0");
    let r = m.add_function("ns", "dir/", "x", "say hi");
    assert_eq!(r, Err(MigrateError::EmptyFunctionName));
    assert_eq!(m.into_tree(), VFolder::new());
}

#[test]
fn function_outside_root_is_refused() {
    let mut m = Migration::new("0.1.0");
    let r = m.migrate_function("ns", "relative/f.mcfunction", "/abs/root", "say hi");
    assert_eq!(r, Err(MigrateError::OutsideRoot));
}

#[test]
fn item_tag_declaration() {
    let mut m = Migration::new("0.1.0");
    let tag = Some(TagSource { replace: true, values: ids(&["a:b", "a:c"]) });
    let r = m.migrate_tag("ns", "item", "/p/data/ns/tags/item/example.json", "/p/data/ns/tags/item", &tag);
    assert_eq!(r, Ok(()));
    let expected = "// This file was automatically migrated by ShulkerScript CLI v0.1.0 from file \"/p/data/ns/tags/item/example.json\"\nnamespace \"ns\";\n\ntag \"example\" of \"item\" replace [\n    \"a:b\",\n    \"a:c\"\n]\n";
    assert_eq!(text_at(&m.into_tree(), "src/tags/ns/item/example.shu").as_deref(), Some(expected));
}

#[test]
fn function_tags_carry_no_qualifier() {
    let p = chars_of("load");
    for t in ["function", "functions"] {
        let d = tag_declaration_text(&p, t, false, &keys(&["ns:init"]));
        assert_eq!(string_of(&d), "tag \"load\" [\n    \"ns:init\"\n]\n");
    }
    let d = tag_declaration_text(&p, "blocks", false, &keys(&[]));
    assert_eq!(string_of(&d), "tag \"load\" of \"blocks\" [\n\n]\n");
}

#[test]
fn unsupported_tag_entry_skips_only_that_tag() {
    let mut m = Migration::new("0.1.0");
    let bad = Some(TagSource {
        replace: false,
        values: vec![TagValue::Id("a:b".to_string()), TagValue::Unsupported],
    });
    let good = Some(TagSource { replace: false, values: ids(&["a:d"]) });
    assert_eq!(m.add_tag("ns", "blocks", "bad.json", "bad.json", &bad), Err(MigrateError::UnsupportedTagEntry));
    assert_eq!(m.add_tag("ns", "blocks", "good.json", "good.json", &good), Ok(()));
    assert_eq!(m.add_function("ns", "f.mcfunction", "f.mcfunction", "say x"), Ok(()));
    assert_eq!(m.add_tag("ns", "blocks", "worse.json", "worse.json", &None), Err(MigrateError::MalformedTag));
    let tree = m.into_tree();
    assert!(text_at(&tree, "src/tags/ns/blocks/bad.shu").is_none());
    assert!(text_at(&tree, "src/tags/ns/blocks/good.shu").is_some());
    assert!(text_at(&tree, "src/functions/ns/f.shu").is_some());
}

#[test]
fn asset_only_namespace_is_copied() {
    let mut m = Migration::new("0.1.0");
    let mut folder = VFolder::new();
    folder.add_file("loot/chest.json", VFile::Binary(vec![1, 2, 3]));
    assert_eq!(m.add_assets("ns", "loot_tables", folder), Ok(()));
    let meta = PackMeta { description: "d".to_string(), pack_format: 15 };
    let cfg = m.project_config("pack", &meta);
    let assets = cfg.compiler.and_then(|c| c.assets);
    assert_eq!(assets.as_deref(), Some("./assets"));
    assert_eq!(cfg.pack.name, "pack");
    assert_eq!(cfg.pack.pack_format, 15);
    assert_eq!(cfg.pack.version, "0.1.0");
    let tree = m.into_tree();
    assert_eq!(
        tree.get_file("assets/data/ns/loot_tables/loot/chest.json"),
        Some(&VFile::Binary(vec![1, 2, 3]))
    );
    assert!(tree.get_folder("src").is_none());
}

#[test]
fn no_assets_no_compiler_section() {
    let m = Migration::new("0.1.0");
    let meta = PackMeta { description: "d".to_string(), pack_format: 15 };
    assert!(m.project_config("pack", &meta).compiler.is_none());
}

#[test]
fn config_text_goes_to_root() {
    let mut m = Migration::new("0.1.0");
    m.add_config("[pack]\n".to_string());
    assert_eq!(text_at(&m.into_tree(), "pack.toml").as_deref(), Some("[pack]\n"));
}

fn run_once() -> VFolder {
    let mut m = Migration::new("0.1.0");
    m.add_function("ns", "a/b.mcfunction", "src/a/b.mcfunction", "say 1\n#c").unwrap();
    let tag = Some(TagSource { replace: false, values: ids(&["ns:a/b"]) });
    m.add_tag("ns", "function", "load.json", "load.json", &tag).unwrap();
    m.add_config("x".to_string());
    m.into_tree()
}

#[test]
fn migration_is_deterministic() {
    assert_eq!(run_once(), run_once());
}

#[test]
fn pack_only_metadata_is_compatible() {
    assert!(is_mcmeta_compatible(&meta(Some(&["pack"]), Some(&["description", "pack_format"]))));
    assert!(check_meta(&meta(Some(&["pack"]), Some(&["pack_format"])), false).is_ok());
}

#[test]
fn extra_metadata_keys_are_incompatible() {
    for extra in ["features", "filter", "overlays", "language"] {
        let m = meta(Some(&["pack", extra]), Some(&["pack_format"]));
        assert!(!is_mcmeta_compatible(&m));
        assert_eq!(check_meta(&m, false).err(), Some(MigrateError::IncompatibleMeta));
        let forced = check_meta(&m, true).unwrap();
        assert_eq!(forced.description, "A pack");
        assert_eq!(forced.pack_format, 48);
    }
    assert!(!is_mcmeta_compatible(&meta(Some(&["pack"]), Some(&["supported_formats"]))));
    assert!(!is_mcmeta_compatible(&meta(None, None)));
    assert!(!is_mcmeta_compatible(&meta(Some(&["pack"]), None)));
}

#[test]
fn malformed_metadata() {
    let mut m = meta(Some(&["pack"]), Some(&["pack_format"]));
    m.pack_format = Some(256);
    assert_eq!(check_meta(&m, false).err(), Some(MigrateError::MalformedMeta));
    m.pack_format = Some(255);
    assert_eq!(check_meta(&m, false).unwrap().pack_format, 255);
    m.description = None;
    assert_eq!(check_meta(&m, true).err(), Some(MigrateError::MalformedMeta));
}

#[test]
fn subdirectory_dispatch() {
    assert_eq!(classify_subdir("function"), SubdirKind::Functions);
    assert_eq!(classify_subdir("functions"), SubdirKind::Functions);
    assert_eq!(classify_subdir("tags"), SubdirKind::Tags);
    assert_eq!(classify_subdir("loot_tables"), SubdirKind::Assets);
    assert_eq!(classify_subdir("Tags"), SubdirKind::Assets);
}

#[test]
fn source_file_extensions() {
    assert!(is_source_file("load.mcfunction", "mcfunction"));
    assert!(!is_source_file(".mcfunction", "mcfunction"));
    assert!(!is_source_file("load.json", "mcfunction"));
    assert!(is_source_file("a.json", "json"));
    assert!(!is_source_file("json", "json"));
}

#[test]
fn paths_with_empty_segments_are_refused() {
    let mut m = Migration::new("0.1.0");
    assert_eq!(m.add_function("ns", "a//b.mcfunction", "x", "say"), Err(MigrateError::InvalidPath));
    assert_eq!(m.add_function("", "b.mcfunction", "x", "say"), Err(MigrateError::InvalidPath));
    let mut bad = VFolder::new();
    bad.add_file("x/", VFile::Binary(vec![1]));
    assert_eq!(m.add_assets("ns", "loot", bad), Err(MigrateError::InvalidPath));
    assert_eq!(m.add_assets("ns", "", VFolder::new()), Err(MigrateError::InvalidPath));
    assert_eq!(m.into_tree(), VFolder::new());
}

fn function_file(ns: &str, name: &str, text: &str) -> SourceFile {
    SourceFile::Function {
        namespace: ns.to_string(),
        file: format!("/p/data/{ns}/function/{name}.mcfunction"),
        root: format!("/p/data/{ns}/function"),
        text: text.to_string(),
    }
}

fn tag_file(name: &str, values: Vec<TagValue>) -> SourceFile {
    SourceFile::Tag {
        namespace: "ns".to_string(),
        tag_type: "item".to_string(),
        file: format!("/p/data/ns/tags/item/{name}.json"),
        root: "/p/data/ns/tags/item".to_string(),
        tag: Some(TagSource { replace: false, values }),
    }
}

#[test]
fn whole_run_skips_bad_tag() {
    let mut m = Migration::new("0.1.0");
    let files = vec![
        function_file("ns", "a", "say a"),
        tag_file("bad", vec![TagValue::Id("a:b".to_string()), TagValue::Unsupported]),
        tag_file("good", ids(&["a:b"])),
        function_file("ns", "b", "say b"),
    ];
    assert_eq!(m.migrate_all(files), Ok(vec![1]));
    let tree = m.into_tree();
    assert!(text_at(&tree, "src/functions/ns/a.shu").is_some());
    assert!(text_at(&tree, "src/functions/ns/b.shu").is_some());
    assert!(text_at(&tree, "src/tags/ns/item/good.shu").is_some());
    assert!(text_at(&tree, "src/tags/ns/item/bad.shu").is_none());
}

#[test]
fn whole_run_stops_on_bad_function() {
    let mut m = Migration::new("0.1.0");
    let files = vec![
        function_file("ns", "a", "say a"),
        SourceFile::Function {
            namespace: "ns".to_string(),
            file: "relative.mcfunction".to_string(),
            root: "/abs".to_string(),
            text: String::new(),
        },
        function_file("ns", "b", "say b"),
    ];
    assert_eq!(m.migrate_all(files), Err(MigrateError::OutsideRoot));
    let tree = m.into_tree();
    assert!(text_at(&tree, "src/functions/ns/a.shu").is_some());
    assert!(text_at(&tree, "src/functions/ns/b.shu").is_none());
}

#[test]
fn whole_run_of_assets_only() {
    let mut m = Migration::new("0.1.0");
    let mut folder = VFolder::new();
    folder.add_file("a/b.json", VFile::Binary(vec![7]));
    let files = vec![SourceFile::Assets { namespace: "ns".to_string(), subdir: "loot".to_string(), folder }];
    assert_eq!(m.migrate_all(files), Ok(vec![]));
    let meta = PackMeta { description: "d".to_string(), pack_format: 15 };
    assert!(m.project_config("p", &meta).compiler.is_some());
    let tree = m.into_tree();
    assert_eq!(tree.get_file("assets/data/ns/loot/a/b.json"), Some(&VFile::Binary(vec![7])));
    assert!(tree.get_folder("src").is_none());
}

#[test]
fn project_names() {
    assert_eq!(project_name("/home/me/My Pack").as_deref(), Some("My Pack"));
    assert_eq!(project_name("/"), None);
}
