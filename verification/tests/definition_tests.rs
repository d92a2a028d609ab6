use kickstart::value::Value;
use kickstart::{Condition, TemplateDefinition, Variable};

fn base_def(variables: Vec<Variable>) -> TemplateDefinition {
    TemplateDefinition {
        name: "Test template".to_string(),
        description: Some("A description".to_string()),
        version: None,
        kickstart_version: 1,
        url: None,
        authors: vec![],
        keywords: vec![],
        directory: None,
        ignore: vec![],
        cleanup: vec![],
        copy_without_render: vec![],
        pre_gen_hooks: vec![],
        post_gen_hooks: vec![],
        variables,
    }
}

fn var(name: &str, default: Value, prompt: &str) -> Variable {
    Variable {
        name: name.to_string(),
        default,
        prompt: prompt.to_string(),
        choices: None,
        validation: None,
        only_if: None,
    }
}

fn str_choices(items: &[&str]) -> Option<Vec<Value>> {
    Some(items.iter().map(|s| Value::String(s.to_string())).collect())
}

#[test]
fn can_load_template_and_work_with_no_input() {
    let tpl = base_def(vec![
        var(
            "project_name",
            Value::String("My project".to_string()),
            "What's the name of your project?",
        ),
        Variable {
            choices: str_choices(&["postgres", "mysql"]),
            ..var(
                "database",
                Value::String("postgres".to_string()),
                "Which database to use?",
            )
        },
        Variable {
            choices: str_choices(&["10.4", "9.3"]),
            only_if: Some(Condition {
                name: "database".to_string(),
                value: Value::String("postgres".to_string()),
            }),
            ..var(
                "pg_version",
                Value::String("10.4".to_string()),
                "Which version of Postgres?",
            )
        },
    ]);

    assert_eq!(tpl.variables.len(), 3);
    let res = tpl.default_values();
    assert!(res.is_ok());
}

#[test]
fn only_if_questions_are_skipped_if_cond_invalid() {
    let tpl = base_def(vec![
        var(
            "project_name",
            Value::String("My project".to_string()),
            "What's the name of your project?",
        ),
        Variable {
            choices: str_choices(&["postgres", "mysql"]),
            ..var(
                "database",
                Value::String("mysql".to_string()),
                "Which database to use?",
            )
        },
        Variable {
            choices: str_choices(&["10.4", "9.3"]),
            only_if: Some(Condition {
                name: "database".to_string(),
                value: Value::String("postgres".to_string()),
            }),
            ..var(
                "pg_version",
                Value::String("10.4".to_string()),
                "Which version of Postgres?",
            )
        },
    ]);

    assert_eq!(tpl.variables.len(), 3);
    let res = tpl.default_values();
    assert!(res.is_ok());
    let res = res.unwrap();
    assert!(!res.contains_key("pg_version"));
}

#[test]
fn nested_only_if_questions_are_skipped_if_initial_cond_invalid() {
    let tpl = base_def(vec![
        var(
            "project_name",
            Value::String("My project".to_string()),
            "What's the name of your project?",
        ),
        Variable {
            choices: str_choices(&["postgres", "mysql"]),
            ..var(
                "database",
                Value::String("postgres".to_string()),
                "Which database to use?",
            )
        },
        Variable {
            choices: str_choices(&["10.4", "9.3"]),
            only_if: Some(Condition {
                name: "database".to_string(),
                value: Value::String("mysql".to_string()),
            }),
            ..var(
                "pg_version",
                Value::String("10.4".to_string()),
                "Which version of Postgres?",
            )
        },
        Variable {
            only_if: Some(Condition {
                name: "pg_version".to_string(),
                value: Value::String("10.4".to_string()),
            }),
            ..var("pg_bouncer", Value::Boolean(true), "Add pgBouncer?")
        },
    ]);

    assert_eq!(tpl.variables.len(), 4);
    let res = tpl.default_values();
    assert!(res.is_ok());
    let res = res.unwrap();
    assert!(!res.contains_key("pg_version"));
    assert!(!res.contains_key("pg_bouncer"));
}

#[test]
fn use_previous_responses_in_default_value_with_variable_template() {
    let tpl = base_def(vec![
        var(
            "project_one",
            Value::String("my_project".to_string()),
            "What's the name of your first project?",
        ),
        var(
            "project_two",
            Value::String("other_project".to_string()),
            "What's the name of your second project?",
        ),
        var(
            "manifest",
            Value::String("{{project_one}}-{{project_two}}-manifest.md".to_string()),
            "What's the manifest name file?",
        ),
    ]);

    assert_eq!(tpl.variables.len(), 3);

    let res = tpl.default_values();

    assert!(res.is_ok());
    let res = res.unwrap();

    assert!(res.contains_key("project_one"));
    assert!(res.contains_key("project_two"));
    assert!(res.contains_key("manifest"));

    let got_value = res.get("manifest").unwrap();
    let expected_value: String = String::from("my_project-other_project-manifest.md");

    assert_eq!(got_value, &Value::String(expected_value))
}

#[test]
fn all_hooks_paths_lists_pre_then_post() {
    let mut def = base_def(vec![]);
    def.pre_gen_hooks = vec![kickstart::Hook {
        name: "pre".to_string(),
        path: "hooks/pre.sh".to_string(),
        only_if: None,
    }];
    def.post_gen_hooks = vec![kickstart::Hook {
        name: "post".to_string(),
        path: "hooks/post.sh".to_string(),
        only_if: None,
    }];
    let paths = def.all_hooks_paths();
    assert_eq!(paths, vec!["hooks/pre.sh".to_string(), "hooks/post.sh".to_string()]);
}

#[test]
fn unsupported_schema_version_is_refused() {
    let mut def = base_def(vec![]);
    assert!(def.supported_schema());
    def.kickstart_version = 2;
    assert!(!def.supported_schema());
}
