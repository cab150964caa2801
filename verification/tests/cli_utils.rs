use short::cli::{current_env_column, var_cell};
use short::run_file::EnvVar;
use short::cli::{is_current_env, is_current_setup};
use short::cfg::{ArrayVar, ArrayVars, VarName, Vars};
use short::cli::{vars_matrix, MatrixCell};
use short::run_file::generate_env_vars;
use short::cli::{
    selected_envs, show_format, DeleteAction, Settings, SettingsError, SyncSettings, UpdateAction,
};
use short::env_file::Env;
use short::template::{Registry, Template, TemplateError};
use short::utils::{find_in_parents, is_checked, is_cli_colorized, FindStep};

#[test]
fn settings() {
    let mut s = Settings::new();
    s.set_setup("setup".to_string());
    s.set_env("env".to_string());
    assert_eq!(&"setup".to_string(), s.setup().unwrap());
    assert_eq!(&"env".to_string(), s.env().unwrap());
}

#[test]
fn settings_unknown() {
    let s = Settings::new();
    assert!(matches!(s.setup(), Err(SettingsError::SetupNotSpecified)));
    assert!(matches!(s.env(), Err(SettingsError::EnvNotSpecified)));
}

#[test]
fn show_default_format() {
    let mut s = Settings::new();
    s.set_setup("setup".to_string());
    assert_eq!(show_format(None, &s), "[setup:]");
    s.set_env("dev".to_string());
    assert_eq!(show_format(None, &s), "[setup:dev]");
    assert_eq!(show_format(Some("{env}/{setup}/{env}"), &s), "dev/setup/dev");
}

#[test]
fn sync_actions() {
    let s = SyncSettings::new(true, true, false, true, None);
    assert_eq!(s.update_action(), UpdateAction::SetEmpty);
    assert_eq!(s.delete_action(), DeleteAction::Refuse);
    let s = SyncSettings::new(false, true, true, true, Some("f".to_string()));
    assert_eq!(s.update_action(), UpdateAction::Copy);
    assert_eq!(s.delete_action(), DeleteAction::Delete);
    let s = SyncSettings::new(false, false, false, false, None);
    assert_eq!(s.update_action(), UpdateAction::Ask);
    assert_eq!(s.delete_action(), DeleteAction::Ask);
}

#[test]
fn selected_envs_by_name() {
    let envs = vec![
        Env::new("env/.dev".into()),
        Env::new("env/noname".into()),
        Env::new("env/.prod".into()),
        Env::new("env/.test".into()),
    ];
    let mut settings = Settings::new();
    settings.set_env("test".to_string());
    let selected = selected_envs(&settings, vec!["dev".to_string()], envs).unwrap();
    assert_eq!(selected.len(), 2);
    assert_eq!(selected[0].name().unwrap(), "dev");
    assert_eq!(selected[1].name().unwrap(), "test");

    let none = selected_envs(&Settings::new(), vec!["x".to_string()], vec![Env::new(".a".into())]);
    assert!(none.is_err());
}

#[test]
fn colorized() {
    assert!(!is_cli_colorized(Some("1"), Some("1")));
    assert!(is_cli_colorized(None, Some("1")));
    assert!(!is_cli_colorized(None, Some("0")));
    assert!(!is_cli_colorized(None, None));
}

#[test]
fn find_steps() {
    match find_in_parents("/a/b", "file1", true) {
        FindStep::Found(p) => assert_eq!(p, "/a/b/file1"),
        _ => assert!(false),
    }
    match find_in_parents("/a/b", "file1", false) {
        FindStep::Parent(p) => assert_eq!(p, "/a"),
        _ => assert!(false),
    }
    assert!(matches!(find_in_parents("/", "file1", false), FindStep::RootReached));
}

#[test]
fn checked_within_ttl() {
    assert!(is_checked(true, 100, 1, 100));
    assert!(!is_checked(true, 100, 1, 101));
    assert!(!is_checked(false, 100, 1, 100));
}

#[test]
fn registry_get() {
    let mut registry = Registry::new();
    let mut t = Template::new("".to_string(), "https://example.org/a.git".to_string());
    t.set_name("a".to_string());
    assert!(registry.insert(t));
    assert!(!registry.insert(Template::new("a".to_string(), "other".to_string())));
    assert_eq!(registry.index().len(), 1);
    let got = registry.get("a").unwrap();
    assert_eq!(got.name(), "a");
    assert_eq!(got.url(), "https://example.org/a.git");
    let missing = registry.get("b").unwrap_err();
    assert_eq!(missing.message(), "template `b` not found");
}

#[test]
fn template_copy_filters_entries() {
    let mut t = Template::new("t".to_string(), "u".to_string());
    let names = vec![
        "run.sh".to_string(),
        ".git".to_string(),
        ".gitignore".to_string(),
        "short.yaml".to_string(),
        "env".to_string(),
    ];
    assert!(matches!(t.copy(&names), Err(TemplateError::NotCheckedOut)));
    t.checkout("/tmp/t".to_string());
    let paths = t.copy(&names).unwrap();
    assert_eq!(paths, vec!["/tmp/t/run.sh".to_string(), "/tmp/t/env".to_string()]);
}

#[test]
fn env_matrix_rows() {
    let mut dev = Env::new("env/.dev".into());
    dev.add("A", "1");
    dev.add_empty_line();
    dev.add("B", "2");
    let mut prod = Env::new("env/.prod".into());
    prod.add("B", "20");
    let rows = short::cli::env_matrix(&vec![dev, prod]).unwrap();
    assert_eq!(
        rows,
        vec![
            vec!["".to_string(), "dev".to_string(), "prod".to_string()],
            vec!["A".to_string(), "1".to_string()],
            vec!["B".to_string(), "2".to_string(), "20".to_string()],
        ]
    );
    assert!(short::cli::env_matrix(&vec![Env::new("env/noname".into())]).is_err());
}

#[test]
fn vars_matrix_rows() {
    let mut dev = Env::new("env/.dev".into());
    dev.add("SETUP_NAME", "one");
    dev.add("VAR1", "a");
    let mut prod = Env::new("env/.prod".into());
    prod.add("VAR1", "b");
    prod.add("SETUP_NAME", "two");
    let mut array_vars = ArrayVars::new();
    array_vars.add(ArrayVar::new("all".into(), "VAR".into()));
    let mut vars = Vars::new();
    vars.add(VarName::new("SETUP_NAME".to_string()));
    let env_vars = generate_env_vars(&dev, &array_vars, Some(&vars)).unwrap();
    let envs = vec![dev, prod];
    let rows = vars_matrix(&envs, &env_vars);
    let c = |t: &str| MatrixCell { text: t.to_string(), col_span: 1 };
    assert_eq!(
        rows,
        vec![
            vec![MatrixCell { text: "".to_string(), col_span: 2 }, c("dev"), c("prod")],
            vec![c("all"), MatrixCell { text: "ALL (VAR)".to_string(), col_span: 3 }],
            vec![c(""), c("VAR1"), c("a"), c("b")],
            vec![c("setup_name"), c("SETUP_NAME"), c("one"), c("two")],
        ]
    );
}

#[test]
fn current_setup_and_env_marks() {
    let mut s = Settings::new();
    s.set_setup("web".to_string());
    assert!(is_current_setup(&s, &"web".to_string()));
    assert!(!is_current_setup(&s, &"db".to_string()));
    assert!(!is_current_env(&s, &"web".to_string(), &"dev".to_string()));
    s.set_env("dev".to_string());
    assert!(!is_current_setup(&s, &"web".to_string()));
    assert!(is_current_env(&s, &"web".to_string(), &"dev".to_string()));
    assert!(!is_current_env(&s, &"db".to_string(), &"dev".to_string()));
}

#[test]
fn vars_cells_with_defaults() {
    let mut dev = Env::new("env/.dev".into());
    dev.add("A", "1");
    let setup = "web".to_string();
    assert_eq!(var_cell(&dev, &"A".to_string(), &setup).unwrap(), Some("1".to_string()));
    assert_eq!(var_cell(&dev, &"short_env".to_string(), &setup).unwrap(), Some("dev".to_string()));
    assert_eq!(var_cell(&dev, &"short_setup".to_string(), &setup).unwrap(), Some("web".to_string()));
    assert_eq!(var_cell(&dev, &"B".to_string(), &setup).unwrap(), None);
    assert!(var_cell(&Env::new("env/noname".into()), &"A".to_string(), &setup).is_err());
    let from_setup = EnvVar::from_setup(&setup);
    assert_eq!(from_setup.var().to_string(), "short_setup");
    assert_eq!(from_setup.env_value().to_string(), "web");
}

#[test]
fn current_env_column_marks_the_current_env() {
    let envs = vec![Env::new("env/.dev".into()), Env::new("env/.prod".into())];
    let mut s = Settings::new();
    assert_eq!(current_env_column(&s, &envs).unwrap(), 0);
    s.set_env("prod".to_string());
    assert_eq!(current_env_column(&s, &envs).unwrap(), 1);
    assert!(current_env_column(&s, &vec![Env::new("env/x".into())]).is_err());
}
