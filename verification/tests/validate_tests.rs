use kickstart::validate::validate_definition;
use kickstart::value::Value;
use kickstart::{Condition, TemplateDefinition, Variable};

fn base_def(variables: Vec<Variable>) -> TemplateDefinition {
    TemplateDefinition {
        name: "Test template".to_string(),
        description: Some("A description".to_string()),
        version: None,
        kickstart_version: 1,
        url: None,
        authors: vec![],
        keywords: vec![],
        directory: None,
        ignore: vec![],
        cleanup: vec![],
        copy_without_render: vec![],
        pre_gen_hooks: vec![],
        post_gen_hooks: vec![],
        variables,
    }
}

fn var(name: &str, default: Value, prompt: &str) -> Variable {
    Variable {
        name: name.to_string(),
        default,
        prompt: prompt.to_string(),
        choices: None,
        validation: None,
        only_if: None,
    }
}

fn str_choices(items: &[&str]) -> Option<Vec<Value>> {
    Some(items.iter().map(|s| Value::String(s.to_string())).collect())
}

#[test]
fn valid_definition_has_no_errors() {
    let def = base_def(vec![
        var(
            "project_name",
            Value::String("My project".to_string()),
            "What's the name of your project?",
        ),
        Variable {
            choices: str_choices(&["postgres", "mysql"]),
            ..var(
                "database",
                Value::String("postgres".to_string()),
                "Which database to use?",
            )
        },
        Variable {
            choices: str_choices(&["10.4", "9.3"]),
            only_if: Some(Condition {
                name: "database".to_string(),
                value: Value::String("postgres".to_string()),
            }),
            ..var(
                "pg_version",
                Value::String("10.4".to_string()),
                "Which version of Postgres?",
            )
        },
    ]);
    let errs = validate_definition(&def);
    assert!(errs.is_empty());
}

#[test]
fn errors_default_not_in_choice() {
    let def = base_def(vec![
        var(
            "project_name",
            Value::String("My project".to_string()),
            "What's the name of your project?",
        ),
        Variable {
            choices: str_choices(&["postgres", "mysql"]),
            ..var(
                "database",
                Value::String("postgres".to_string()),
                "Which database to use?",
            )
        },
        Variable {
            choices: str_choices(&["10.4", "9.3"]),
            only_if: Some(Condition {
                name: "database".to_string(),
                value: Value::String("postgres".to_string()),
            }),
            ..var(
                "pg_version",
                Value::String("10.5".to_string()),
                "Which version of Postgres?",
            )
        },
    ]);
    let errs = validate_definition(&def);
    assert!(!errs.is_empty());
    assert_eq!(
        errs[0],
        "Variable `pg_version` has `\"10.5\"` as default, which isn't in the choices"
    );
}

#[test]
fn errors_only_if_unkwnon_variable_name() {
    let def = base_def(vec![
        var(
            "project_name",
            Value::String("My project".to_string()),
            "What's the name of your project?",
        ),
        Variable {
            choices: str_choices(&["10.4", "9.3"]),
            only_if: Some(Condition {
                name: "database".to_string(),
                value: Value::Boolean(true),
            }),
            ..var(
                "pg_version",
                Value::String("10.4".to_string()),
                "Which version of Postgres?",
            )
        },
    ]);
    let errs = validate_definition(&def);
    assert!(!errs.is_empty());
    assert_eq!(errs[0], "Variable `pg_version` depends on `database`, which wasn't asked");
}

#[test]
fn errors_only_if_not_matching_type() {
    let def = base_def(vec![
        var(
            "project_name",
            Value::String("My project".to_string()),
            "What's the name of your project?",
        ),
        Variable {
            choices: str_choices(&["postgres", "mysql"]),
            ..var(
                "database",
                Value::String("postgres".to_string()),
                "Which database to use?",
            )
        },
        Variable {
            choices: str_choices(&["10.4", "9.3"]),
            only_if: Some(Condition {
                name: "database".to_string(),
                value: Value::Boolean(true),
            }),
            ..var(
                "pg_version",
                Value::String("10.4".to_string()),
                "Which version of Postgres?",
            )
        },
    ]);
    let errs = validate_definition(&def);
    assert!(!errs.is_empty());
    assert_eq!(
        errs[0],
        "Variable `pg_version` depends on `database=true`, but the type of `database` is string"
    );
}

#[test]
fn errors_validation_regex_on_wrong_type() {
    let def = base_def(vec![Variable {
        validation: Some("[0-9]+".to_string()),
        ..var("project", Value::Boolean(true), "What's the name of your project?")
    }]);
    let errs = validate_definition(&def);
    assert!(!errs.is_empty());
    assert_eq!(errs[0], "Variable `project` has a validation regex but is not a string");
}

#[test]
fn errors_invalid_validation_regex() {
    let def = base_def(vec![Variable {
        validation: Some("**[0-9]++".to_string()),
        ..var(
            "project_name",
            Value::String("My project".to_string()),
            "What's the name of your project?",
        )
    }]);
    let errs = validate_definition(&def);
    assert!(!errs.is_empty());
    assert_eq!(errs[0], "Variable `project_name` has an invalid validation regex: **[0-9]++");
}

#[test]
fn errors_default_doesnt_match_validation_regex() {
    let def = base_def(vec![Variable {
        validation: Some("^([a-zA-Z][a-zA-Z0-9_-]+)$".to_string()),
        ..var(
            "project_name",
            Value::String("123".to_string()),
            "What's the name of your project?",
        )
    }]);
    let errs = validate_definition(&def);
    assert!(!errs.is_empty());
    assert_eq!(
        errs[0],
        "Variable `project_name` has a default that doesn't pass its validation regex"
    );
}

#[test]
fn validation_reports_every_defect_in_declaration_order() {
    // Three independent defects must all be reported, in declaration order.
    let def = base_def(vec![
        Variable {
            choices: str_choices(&["a", "b"]),
            ..var("first", Value::String("c".to_string()), "?")
        },
        Variable {
            only_if: Some(Condition {
                name: "missing".to_string(),
                value: Value::String("x".to_string()),
            }),
            ..var("second", Value::String("ok".to_string()), "?")
        },
        Variable {
            validation: Some("**[0-9]++".to_string()),
            ..var("third", Value::String("ok".to_string()), "?")
        },
    ]);
    let errs = validate_definition(&def);
    assert_eq!(errs.len(), 3);
    assert_eq!(errs[0], "Variable `first` has `\"c\"` as default, which isn't in the choices");
    assert_eq!(errs[1], "Variable `second` depends on `missing`, which wasn't asked");
    assert_eq!(errs[2], "Variable `third` has an invalid validation regex: **[0-9]++");
}

#[test]
fn full_validate_orders_globs_hooks_then_variables() {
    let mut def = base_def(vec![Variable {
        choices: str_choices(&["a"]),
        ..var("first", Value::String("b".to_string()), "?")
    }]);
    def.copy_without_render = vec!["[".to_string()];
    def.pre_gen_hooks = vec![kickstart::Hook {
        name: "pre".to_string(),
        path: "hooks/pre.sh".to_string(),
        only_if: None,
    }];
    let errs = def.validate(&vec![false]);
    assert_eq!(errs.len(), 3);
    assert!(errs[0].starts_with("In copy_without_render, `[` is not a valid pattern:"));
    assert_eq!(errs[1], "Hook file `hooks/pre.sh` was not found");
    assert_eq!(errs[2], "Variable `first` has `b` as default, which isn't in the choices");
}
