use short::env_file::{Env, EnvDiffController, ModificationTime, Var};

fn parsed(content: &str) -> Env {
    let mut env = Env::new("".into());
    env.entries_from_reader(content).unwrap();
    env
}

#[test]
fn written_env_reads_back_the_same() {
    let env = parsed("  A = a \n#comment  \n\n\u{feff}B=b=c\n");
    let text = env.to_string();
    assert_eq!(text, "A=a\n#comment\n\nB=b=c\n");
    let again = parsed(&text);
    assert_eq!(again.to_string(), text);
}

#[test]
fn bom_inside_name_does_not_read_back() {
    let env = parsed(" \u{feff}A=a");
    let text = env.to_string();
    assert_eq!(text, "\u{feff}A=a\n");
    assert_eq!(parsed(&text).to_string(), "A=a\n");
}

#[test]
fn get_after_add_keeps_first() {
    let mut env = Env::new("".into());
    env.add("A", "1");
    env.add("A", "2");
    env.add("B", "3");
    assert_eq!(env.get("A").unwrap().value(), "1");
    assert_eq!(env.get("B").unwrap().value(), "3");
    assert!(env.get("C").is_err());
}

#[test]
fn sync_keeps_every_source_line() {
    let mut source = Env::new(".source".into());
    source.add("A", "a");
    source.add_empty_line();
    source.add("B", "b");
    let mut target = Env::new(".target".into());
    target.add("B", "target-b");
    target.add("C", "c");
    let controller = EnvDiffController::new(|v: Var| v, |_: &Var| Ok(true));
    target.update_by_diff(&source, &controller).unwrap();
    assert_eq!(target.to_string(), "A=a\n\nB=target-b\n");
    assert_eq!(target.file(), ".target");
}

#[test]
fn sync_refused_delete_fails_unchanged() {
    let source = Env::new(".source".into());
    let mut target = Env::new(".target".into());
    target.add("C", "c");
    let controller = EnvDiffController::new(|v: Var| v, |_: &Var| Err("refused".to_string()));
    let r = target.update_by_diff(&source, &controller);
    assert_eq!(r, Err("refused".to_string()));
    assert_eq!(target.to_string(), "C=c\n");
}

#[test]
fn sync_with_itself_changes_nothing() {
    let env = parsed("A=a\n#c\n\nB=b\n");
    let mut target = env.copy(".other".into());
    let controller = EnvDiffController::new(
        |mut v: Var| {
            v.set_value("changed");
            v
        },
        |_: &Var| Ok(true),
    );
    target.update_by_diff(&env, &controller).unwrap();
    assert_eq!(target.to_string(), env.to_string());
}

#[test]
fn recent_is_the_latest() {
    let envs = vec![Env::new(".a".into()), Env::new(".b".into()), Env::new(".c".into())];
    let times = vec![
        ModificationTime { seconds: 5, nanos: 0 },
        ModificationTime { seconds: 7, nanos: 1 },
        ModificationTime { seconds: 7, nanos: 1 },
    ];
    let recent = Env::recent(&envs, &times).unwrap();
    assert_eq!(recent.file(), ".b");
    assert_eq!(
        Env::recent(&vec![], &vec![]).unwrap_err(),
        "fail to found the most recent env file"
    );
}

#[test]
fn sync_with_itself_keeps_duplicate_names() {
    let env = parsed("A=1\nA=2\n");
    let mut target = env.copy(".other".into());
    let controller = EnvDiffController::new(|v: Var| v, |_: &Var| Ok(true));
    target.update_by_diff(&env, &controller).unwrap();
    assert_eq!(target.to_string(), "A=1\nA=2\n");
}

#[test]
fn whole_walk_then_none() {
    let mut env = Env::new("".into());
    env.add("A", "1");
    env.add_empty_line();
    env.add("B", "2");
    let mut it = env.iter();
    assert_eq!(it.next().unwrap().name(), "A");
    assert_eq!(it.next().unwrap().name(), "B");
    assert!(it.next().is_none());
    assert!(it.next().is_none());
    let empty = Env::new("".into());
    assert!(empty.iter().next().is_none());
}

#[test]
fn kept_variable_past_the_end_is_appended() {
    let src = Env::new("".into());
    let mut tgt = Env::new("".into());
    tgt.add("X", "x");
    tgt.add("Y", "y");
    let controller = EnvDiffController::new(|v: Var| v, |v: &Var| Ok(v.name() == "X"));
    tgt.update_by_diff(&src, &controller).unwrap();
    assert_eq!(tgt.to_string(), "Y=y\n");
}
