use kickstart::errors::ErrorKind;
use kickstart::generation::{should_delete, EntryAction, TreeEntry};
use kickstart::value::Value;
use kickstart::varmap::VarMap;
use kickstart::{Cleanup, Condition, Hook, HookFile, Template, TemplateDefinition, Variable};

fn base_def(variables: Vec<Variable>) -> TemplateDefinition {
    TemplateDefinition {
        name: "Test template".to_string(),
        description: None,
        version: None,
        kickstart_version: 1,
        url: None,
        authors: vec![],
        keywords: vec![],
        directory: None,
        ignore: vec![],
        cleanup: vec![],
        copy_without_render: vec![],
        pre_gen_hooks: vec![],
        post_gen_hooks: vec![],
        variables,
    }
}

fn var(name: &str, default: Value) -> Variable {
    Variable {
        name: name.to_string(),
        default,
        prompt: "?".to_string(),
        choices: None,
        validation: None,
        only_if: None,
    }
}

fn file_entry(rel: &str, contents: &[u8]) -> TreeEntry {
    TreeEntry {
        rel_path: rel.to_string(),
        is_dir: false,
        inside_output: false,
        contents: contents.to_vec(),
    }
}

fn dir_entry(rel: &str) -> TreeEntry {
    TreeEntry {
        rel_path: rel.to_string(),
        is_dir: true,
        inside_output: false,
        contents: vec![],
    }
}

fn template_with(def: TemplateDefinition) -> Template {
    let vals = def.default_values().unwrap();
    let mut tpl = Template::from_parts(def, "tpl".to_string());
    tpl.set_variables(vals).unwrap();
    tpl
}

#[test]
fn generation_renders_placeholders_with_resolved_values() {
    // The manifest declares one variable; generation replaces every
    // occurrence of its placeholder and leaves the manifest file out.
    let tpl = template_with(base_def(vec![var(
        "project_name",
        Value::String("My project".to_string()),
    )]));
    let entries = vec![
        file_entry("template.toml", b"name = \"x\""),
        dir_entry("docs"),
        file_entry("README.md", b"# {{ project_name }}\n"),
    ];
    let plan = tpl.plan_tree(&entries).unwrap();
    assert_eq!(plan.len(), 3);
    assert!(matches!(plan[0], EntryAction::Skip));
    match &plan[1] {
        EntryAction::MakeDir { dest } => assert_eq!(dest, "docs"),
        _ => panic!("expected a directory"),
    }
    match &plan[2] {
        EntryAction::WriteRendered { dest, contents } => {
            assert_eq!(dest, "README.md");
            assert_eq!(contents, "# My project\n");
        },
        _ => panic!("expected a rendered file"),
    }
}

#[test]
fn plain_tree_round_trips_byte_for_byte() {
    // With no placeholders anywhere, every kept entry reproduces its
    // source exactly.
    let tpl = template_with(base_def(vec![]));
    let entries = vec![
        file_entry("template.toml", b"whatever"),
        dir_entry("src"),
        file_entry("src/lib.rs", b"fn lib() {}\n"),
        file_entry("logo.bin", b"\x00\x01binary"),
    ];
    let plan = tpl.plan_tree(&entries).unwrap();
    assert!(matches!(plan[0], EntryAction::Skip));
    match &plan[1] {
        EntryAction::MakeDir { dest } => assert_eq!(dest, "src"),
        _ => panic!("expected a directory"),
    }
    match &plan[2] {
        EntryAction::WriteRendered { dest, contents } => {
            assert_eq!(dest, "src/lib.rs");
            assert_eq!(contents.as_bytes(), b"fn lib() {}\n");
        },
        _ => panic!("expected a rendered file"),
    }
    match &plan[3] {
        EntryAction::CopyRaw { dest } => assert_eq!(dest, "logo.bin"),
        _ => panic!("expected a raw copy"),
    }
}

#[test]
fn file_with_nul_byte_is_always_copied_unrendered() {
    let tpl = template_with(base_def(vec![]));
    // The bytes hold a placeholder, but the NUL byte marks them binary.
    let entries = vec![file_entry("data.bin", b"{{ x }}\x00rest")];
    let plan = tpl.plan_tree(&entries).unwrap();
    assert!(matches!(&plan[0], EntryAction::CopyRaw { dest } if dest == "data.bin"));
}

#[test]
fn copy_without_render_glob_bypasses_rendering() {
    let mut def = base_def(vec![]);
    def.copy_without_render = vec!["*.png".to_string()];
    let tpl = template_with(def);
    // Valid, placeholder-free text: only the glob keeps it raw.
    let entries = vec![
        file_entry("logo.png", b"plain text bytes"),
        file_entry("notes.txt", b"plain text bytes"),
    ];
    let plan = tpl.plan_tree(&entries).unwrap();
    assert!(matches!(&plan[0], EntryAction::CopyRaw { dest } if dest == "logo.png"));
    assert!(matches!(&plan[1], EntryAction::WriteRendered { dest, .. } if dest == "notes.txt"));
}

#[test]
fn ignore_rules_hooks_and_output_dir_are_skipped() {
    let mut def = base_def(vec![]);
    def.ignore = vec!["private".to_string()];
    def.pre_gen_hooks = vec![Hook {
        name: "pre".to_string(),
        path: "hooks/pre.sh".to_string(),
        only_if: None,
    }];
    let tpl = template_with(def);
    let entries = vec![
        file_entry("private/keys.txt", b"k"),
        file_entry("hooks/pre.sh", b"#!/bin/sh"),
        dir_entry(".git"),
        file_entry(".git/config", b"c"),
        TreeEntry {
            rel_path: "out".to_string(),
            is_dir: true,
            inside_output: true,
            contents: vec![],
        },
        file_entry("kept.txt", b"kept"),
    ];
    let plan = tpl.plan_tree(&entries).unwrap();
    assert!(matches!(plan[0], EntryAction::Skip));
    assert!(matches!(plan[1], EntryAction::Skip));
    assert!(matches!(plan[2], EntryAction::Skip));
    assert!(matches!(plan[3], EntryAction::Skip));
    assert!(matches!(plan[4], EntryAction::Skip));
    assert!(matches!(&plan[5], EntryAction::WriteRendered { dest, .. } if dest == "kept.txt"));
}

#[test]
fn dollar_escape_becomes_a_pipe_in_paths() {
    let tpl = template_with(base_def(vec![]));
    let entries = vec![dir_entry("a$$b")];
    let plan = tpl.plan_tree(&entries).unwrap();
    assert!(matches!(&plan[0], EntryAction::MakeDir { dest } if dest == "a|b"));
}

#[test]
fn path_placeholders_are_rendered() {
    let tpl = template_with(base_def(vec![var(
        "name",
        Value::String("demo".to_string()),
    )]));
    let entries = vec![dir_entry("{{ name }}-app")];
    let plan = tpl.plan_tree(&entries).unwrap();
    assert!(matches!(&plan[0], EntryAction::MakeDir { dest } if dest == "demo-app"));
}

#[test]
fn malformed_copy_pattern_fails_fast_with_both_texts() {
    let mut def = base_def(vec![var("ext", Value::String("[".to_string()))]);
    def.copy_without_render = vec!["{{ ext }}".to_string()];
    let tpl = template_with(def);
    let err = tpl.plan_tree(&vec![file_entry("a.txt", b"x")]).unwrap_err();
    match err.kind {
        ErrorKind::InvalidGlobPattern {
            pattern_before_rendering,
            pattern_after_rendering,
            ..
        } => {
            assert_eq!(pattern_before_rendering, "{{ ext }}");
            assert_eq!(pattern_after_rendering, Some("[".to_string()));
        },
        _ => panic!("wrong error kind"),
    }
}

#[test]
fn cleanup_candidates_follow_the_gating_variable() {
    let mut def = base_def(vec![
        var("project", Value::String("demo".to_string())),
        Variable {
            choices: Some(vec![
                Value::String("postgres".to_string()),
                Value::String("mysql".to_string()),
            ]),
            ..var("db", Value::String("postgres".to_string()))
        },
    ]);
    def.cleanup = vec![
        Cleanup {
            name: "db".to_string(),
            value: Value::String("postgres".to_string()),
            paths: vec!["docker/".to_string(), "{{ project }}.sql".to_string()],
        },
        Cleanup {
            name: "db".to_string(),
            value: Value::String("mysql".to_string()),
            paths: vec!["my.cnf".to_string()],
        },
    ];
    let tpl = template_with(def);
    let cands = tpl.cleanup_candidates().unwrap();
    assert_eq!(cands, vec!["docker/".to_string(), "demo.sql".to_string()]);
}

#[test]
fn cleanup_never_escapes_the_output_directory() {
    // A candidate whose canonical path lies outside the output root is
    // never deleted, even if it exists.
    assert!(!should_delete("/tmp/out", "/etc/passwd", true));
    assert!(!should_delete("/tmp/out", "/tmp/outside", true));
    assert!(should_delete("/tmp/out", "/tmp/out/sub/file", true));
    assert!(should_delete("/tmp/out", "/tmp/out", true));
    assert!(!should_delete("/tmp/out", "/tmp/out/sub", false));
}

#[test]
fn hooks_are_gated_like_variables() {
    let mut def = base_def(vec![Variable {
        choices: Some(vec![
            Value::String("postgres".to_string()),
            Value::String("mysql".to_string()),
        ]),
        ..var("db", Value::String("postgres".to_string()))
    }]);
    def.pre_gen_hooks = vec![
        Hook {
            name: "always".to_string(),
            path: "hooks/always.sh".to_string(),
            only_if: None,
        },
        Hook {
            name: "pg only".to_string(),
            path: "hooks/pg.sh".to_string(),
            only_if: Some(Condition {
                name: "db".to_string(),
                value: Value::String("mysql".to_string()),
            }),
        },
    ];
    let tpl = template_with(def);
    let hooks = tpl.active_pre_gen_hooks();
    assert_eq!(hooks.len(), 1);
    assert_eq!(hooks[0].name, "always");
    assert!(tpl.active_post_gen_hooks().is_empty());
}

#[test]
fn hook_contents_are_rendered_against_the_variables() {
    let tpl = template_with(base_def(vec![var(
        "project",
        Value::String("demo".to_string()),
    )]));
    let hook = Hook {
        name: "greet".to_string(),
        path: "hooks/greet.sh".to_string(),
        only_if: None,
    };
    let rendered = tpl.render_hook(&hook, "echo {{ project }}\n").unwrap();
    assert_eq!(rendered, "echo demo\n");
}

#[test]
fn hook_file_reports_both_paths() {
    let hook = Hook {
        name: "greet".to_string(),
        path: "hooks/greet.sh".to_string(),
        only_if: None,
    };
    let staged = HookFile::from_parts(hook, "/tmp/staged/greet.sh".to_string());
    assert_eq!(staged.name(), "greet");
    assert_eq!(staged.original_path(), "hooks/greet.sh");
    assert_eq!(staged.path(), "/tmp/staged/greet.sh");
}

#[test]
fn variables_must_be_declared_to_be_set() {
    let mut tpl = Template::from_parts(
        base_def(vec![var("known", Value::Boolean(true))]),
        "tpl".to_string(),
    );
    assert!(tpl.insert_variable("known", Value::Boolean(false)).is_ok());
    let err = tpl.insert_variable("unknown", Value::Boolean(false)).unwrap_err();
    match err.kind {
        ErrorKind::InvalidVariableName(name) => assert_eq!(name, "unknown"),
        _ => panic!("wrong error kind"),
    }
    let mut vals = VarMap::new();
    vals.insert("stranger".to_string(), Value::Integer(3));
    assert!(tpl.set_variables(vals).is_err());
}

#[test]
fn should_ask_follows_the_gate() {
    let def = base_def(vec![
        Variable {
            choices: Some(vec![
                Value::String("postgres".to_string()),
                Value::String("mysql".to_string()),
            ]),
            ..var("db", Value::String("mysql".to_string()))
        },
        Variable {
            only_if: Some(Condition {
                name: "db".to_string(),
                value: Value::String("postgres".to_string()),
            }),
            ..var("pg_version", Value::String("10.4".to_string()))
        },
    ]);
    let tpl = template_with(def);
    assert!(tpl.should_ask_variable("db").unwrap());
    assert!(!tpl.should_ask_variable("pg_version").unwrap());
    assert!(tpl.should_ask_variable("nope").is_err());
}

#[test]
fn get_default_for_renders_templated_defaults() {
    let def = base_def(vec![
        var("one", Value::String("a".to_string())),
        var("two", Value::String("{{ one }}-b".to_string())),
        var("n", Value::Integer(4)),
    ]);
    let tpl = Template::from_parts(def, "tpl".to_string());
    let mut vals = VarMap::new();
    vals.insert("one".to_string(), Value::String("a".to_string()));
    assert_eq!(
        tpl.get_default_for("two", &vals).unwrap(),
        Value::String("a-b".to_string())
    );
    assert_eq!(tpl.get_default_for("n", &vals).unwrap(), Value::Integer(4));
    assert!(tpl.get_default_for("zzz", &vals).is_err());
}

#[test]
fn directory_setting_moves_the_git_check() {
    let mut def = base_def(vec![]);
    def.directory = Some("template_root".to_string());
    let tpl = template_with(def);
    let entries = vec![
        dir_entry("template_root"),
        dir_entry("template_root/.git"),
        file_entry("template_root/.git/config", b"c"),
        file_entry("template_root/Howdy.py", b"print()\n"),
    ];
    let plan = tpl.plan_tree(&entries).unwrap();
    assert!(matches!(&plan[0], EntryAction::MakeDir { dest } if dest == "template_root"));
    assert!(matches!(plan[1], EntryAction::Skip));
    assert!(matches!(plan[2], EntryAction::Skip));
    assert!(
        matches!(&plan[3], EntryAction::WriteRendered { dest, .. } if dest == "template_root/Howdy.py")
    );
}
