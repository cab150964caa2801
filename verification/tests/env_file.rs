use short::env_file::{Env, EnvDiffController, Var};

fn parsed(content: &str) -> Env {
    let mut env = Env::new("".into());
    env.entries_from_reader(content).unwrap();
    env
}

#[test]
fn name_from() {
    let env = Env::new("/test-env".into());
    let file_name = env.file_name().unwrap();
    assert_eq!(file_name, "test-env");
}

#[test]
fn name() {
    let mut env = Env::new("/test-env".into());
    assert!(env.name().is_err());
    let file_name = env.file_name().unwrap();
    assert_eq!(file_name, "test-env");
    env.set_file("/.test-env".into());
    let name = env.name().unwrap();
    assert_eq!(name, "test-env");

    // trim dot
    let env = Env::new("test/.test-env".into());
    let file_name = env.file_name().unwrap();
    assert_eq!(file_name, ".test-env");
    let name = env.name().unwrap();
    assert_eq!(name, "test-env");
}

#[test]
fn copy() {
    let mut env = Env::new(".file1".into());
    env.add("name1", "value1");
    let env_copy = env.copy(".file2".into());
    assert_eq!(env.name().unwrap(), "file1");
    assert_eq!(env_copy.name().unwrap(), "file2");
    let name1 = env_copy.get("name1").unwrap();
    assert_eq!(name1.value(), "value1");
}

#[test]
fn is_set() {
    let mut env = Env::new("".into());
    env.add("name1", "value1");
    let is_set = env.is_set("name1", "value1");
    assert!(is_set);
    let is_set = env.is_set("name1", "value2");
    assert!(!is_set);
}

#[test]
fn empty() {
    let env = parsed("");
    assert_eq!(env.to_string(), "")
}

#[test]
fn once_var() {
    let env = parsed("A=a");
    assert_eq!(env.to_string(), "A=a\n")
}

#[test]
fn name_end_with_space() {
    let env = parsed("A=a ");
    assert_eq!(env.to_string(), "A=a\n")
}

#[test]
fn name_start_with_space() {
    let env = parsed("A= a");
    assert_eq!(env.to_string(), "A=a\n")
}

#[test]
fn value_end_with_space() {
    let env = parsed("A =a");
    assert_eq!(env.to_string(), "A=a\n");
}

#[test]
fn value_start_with_space() {
    let env = parsed(" A=a");
    assert_eq!(env.to_string(), "A=a\n");
}

#[test]
fn value_with_space_inside() {
    let mut env = Env::new("".into());
    let r = env.entries_from_reader("A B=a");
    assert!(r.is_err());
}

#[test]
fn empty_comment() {
    let env = parsed("#");
    assert_eq!(env.to_string(), "#\n")
}

#[test]
fn comment() {
    let env = parsed("#test");
    assert_eq!(env.to_string(), "#test\n")
}

#[test]
fn multi_var() {
    let env = parsed(
        r#"A=a
    B=b"#,
    );
    assert_eq!(env.to_string(), "A=a\nB=b\n")
}

#[test]
fn multi_var_and_comment() {
    let env = parsed(
        r#"A=a
#test
B=b"#,
    );
    assert_eq!(env.to_string(), "A=a\n#test\nB=b\n")
}

#[test]
fn empty_lines() {
    let env = parsed(
        r#"

"#,
    );
    assert_eq!(env.to_string(), "\n\n")
}

#[test]
fn env_iterator() {
    let mut env = Env::new("".into());
    env.add("name1", "value1");
    env.add_empty_line();
    env.add("name2", "value2");

    let mut iter = env.iter();

    if let Some(var) = iter.next() {
        assert_eq!(var.name(), "name1");
        assert_eq!(var.value(), "value1");
    } else {
        assert!(false);
    }

    if let Some(var) = iter.next() {
        assert_eq!(var.name(), "name2");
        assert_eq!(var.value(), "value2");
    } else {
        assert!(false);
    }

    assert!(iter.next().is_none());
}

#[test]
fn test_sync() {
    let mut e1 = Env::new("".into());
    e1.add("var1", "value1");
    let mut e2 = e1.copy("".into());
    e2.add("var2", "value2");

    let v = vec![e1, e2];
    short::env_file::sync(&v);
    assert_eq!(v[1].to_string(), "var1=value1\nvar2=value2\n");
}

#[test]
fn update_by_diff_add_var() {
    let mut env_source = Env::new("".into());
    env_source.add("name1", "value1");

    let mut env_target = Env::new("".into());
    let controller = EnvDiffController::new(|var: Var| var, |_var: &Var| Ok(true));
    env_target.update_by_diff(&env_source, &controller).unwrap();

    let mut env_expected = Env::new("".into());
    env_expected.add("name1", "value1");
    assert_eq!(env_expected.to_string(), env_target.to_string());
}

#[test]
fn update_by_diff_add_altered_var() {
    let mut env_source = Env::new("".into());
    env_source.add("name1", "value1");

    let mut env_target = Env::new("".into());
    let controller = EnvDiffController::new(
        |mut var: Var| {
            var.set_value("value1.1");
            var
        },
        |_var: &Var| Ok(true),
    );
    env_target.update_by_diff(&env_source, &controller).unwrap();

    let mut env_expected = Env::new("".into());
    env_expected.add("name1", "value1.1");
    assert_eq!(env_expected.to_string(), env_target.to_string());
}

#[test]
fn update_by_diff_replace_var() {
    let mut env_source = Env::new("".into());
    env_source.add("name1", "value1");

    let mut env_target = Env::new("".into());
    env_target.add("name1", "value1.1");
    let controller = EnvDiffController::new(|v: Var| v, |_: &Var| Ok(true));
    env_target.update_by_diff(&env_source, &controller).unwrap();

    let mut env_expected = Env::new("".into());
    env_expected.add("name1", "value1.1");
    assert_eq!(env_expected.to_string(), env_target.to_string());
}

#[test]
fn update_by_diff_delete_var_true() {
    let env_source = Env::new("".into());

    let mut env_target = Env::new("".into());
    env_target.add("name1", "value1.1");
    let controller = EnvDiffController::new(|v: Var| v, |_: &Var| Ok(true));
    env_target.update_by_diff(&env_source, &controller).unwrap();

    let env_expected = Env::new("".into());
    assert_eq!(env_expected.to_string(), env_target.to_string());
}

#[test]
fn update_by_diff_delete_var_false() {
    let env_source = Env::new("".into());

    let mut env_target = Env::new("".into());
    env_target.add("name1", "value1.1");
    let controller = EnvDiffController::new(|v: Var| v, |_: &Var| Ok(false));
    env_target.update_by_diff(&env_source, &controller).unwrap();

    let mut env_expected = Env::new("".into());
    env_expected.add("name1", "value1.1");
    assert_eq!(env_expected.to_string(), env_target.to_string());
}
