use short::cfg::{ArrayVar, ArrayVars, VarCase, VarName, Vars};
use short::env_file::Env;
use short::run_file::file::{BashScript, Generate, Kind, ShScript};
use short::run_file::{
    generate_array_env_var, generate_env_var, generate_env_vars, generate_var, generate_vars,
    EnvValue, File, Output, RunFileError,
};

fn env_with_two_vars() -> Env {
    let mut env_file = Env::new("".into());
    env_file.add("VAR1", "VALUE1");
    env_file.add("VAR2", "VALUE2");
    env_file
}

#[test]
fn generate_var_test() {
    let array_var = ("all".to_string(), ".*".to_string());
    let env_file = env_with_two_vars();

    let var = generate_var(&env_file, &array_var).unwrap();
    assert_eq!(var.name, "all");
    assert_eq!(var.env_value, " [VAR1]='VALUE1' [VAR2]='VALUE2' ");
    assert_eq!(var.array, true);
}

#[test]
fn generate_vars_test() {
    let array_vars = vec![
        ("all".to_string(), ".*".to_string()),
        ("var1".to_string(), "VAR1".to_string()),
    ];
    let env_file = env_with_two_vars();

    let vars = generate_vars(&env_file, &array_vars).unwrap();
    assert_eq!(vars.len(), 2);
}

#[test]
fn generate_var_exact_name_is_not_an_array() {
    let array_var = ("var1".to_string(), "VAR1".to_string());
    let env_file = env_with_two_vars();

    let var = generate_var(&env_file, &array_var).unwrap();
    assert_eq!(var.array, false);
    assert_eq!(var.env_name, "VAR1");
    assert_eq!(var.env_value, "VALUE1");
}

#[test]
fn generate_var_invalid_pattern() {
    let array_var = ("all".to_string(), "(".to_string());
    let env_file = env_with_two_vars();
    assert!(generate_var(&env_file, &array_var).is_err());
}

#[test]
fn file_append() {
    let mut file = File::new("".into(), "sh").unwrap();
    file.append("code_1").unwrap();
    file.append("code_2").unwrap();
    assert_eq!(
        r#"
code_1

code_2
"#,
        file.content()
    );
}

#[test]
fn generate() {
    let script = BashScript::default();

    let mut array_vars = ArrayVars::new();
    array_vars.add(ArrayVar::new("all".into(), ".*".into()));

    let mut vars = Vars::new();
    vars.add(VarName::new("SETUP_NAME".to_string()));

    let content = script.generate(&array_vars, &vars).unwrap();

    assert_eq!(
        r#"#!/bin/bash
declare -A all && eval all=($ALL)
declare -r setup_name=$SETUP_NAME

declare -p all
declare -p setup_name
"#,
        content
    )
}

#[test]
fn file_generate_bash() {
    let mut array_vars = ArrayVars::new();
    array_vars.add(ArrayVar::new("all".into(), ".*".into()));
    let mut vars = Vars::new();
    vars.add(VarName::new("SETUP_NAME".to_string()));

    let mut file = File::new("run.sh".into(), "bash").unwrap();
    file.generate(&array_vars, &vars).unwrap();
    assert_eq!(file.path(), "run.sh");
    assert_eq!(
        file.content(),
        "#!/bin/bash\ndeclare -A all && eval all=($ALL)\ndeclare -r setup_name=$SETUP_NAME\n\ndeclare -p all\ndeclare -p setup_name\n"
    );
}

#[test]
fn sh_script_generates_fixed_line() {
    let script = ShScript::default();
    let content = script.generate(&ArrayVars::new(), &Vars::new()).unwrap();
    assert_eq!(content, "#generated_sh_script");
}

#[test]
fn unknown_kind() {
    match File::new("run.zsh".into(), "zsh") {
        Err(RunFileError::UnknownKind(k)) => assert_eq!(k, "zsh"),
        _ => assert!(false),
    }
    assert!(matches!(Kind::from_name("bash"), Ok(Kind::Bash(_))));
}

#[test]
fn output_new() {
    let o = Output::new();
    assert_eq!(o.status, 0);
    assert_eq!(o.stdout, "");
    assert_eq!(o.stderr, "");
}

#[test]
fn generate_array_var_test() {
    let array_var = ArrayVar::new("all".into(), ".*".into());
    let env_file = env_with_two_vars();

    let env_var = generate_array_env_var(&env_file, &array_var).unwrap();
    assert_eq!(env_var.var().to_string(), "all");
    assert_eq!(env_var.env_value().to_string(), "VAR1:VALUE1,VAR2:VALUE2");
}

#[test]
fn generate_array_var_with_case_test() {
    let mut array_var = ArrayVar::new("all".into(), ".*".into());
    array_var.set_case(VarCase::CamelCase);
    let env_file = env_with_two_vars();

    let env_var = generate_array_env_var(&env_file, &array_var).unwrap();
    assert_eq!(env_var.var().to_string(), "all");
    assert_eq!(env_var.env_value().to_string(), "Var1:VALUE1,Var2:VALUE2");
}

#[test]
fn generate_env_var_test() {
    let var = VarName::new("VAR1".to_string());
    let env_file = env_with_two_vars();

    let env_var = generate_env_var(&env_file, &var);
    assert_eq!(env_var.var().to_string(), "VAR1");
    assert_eq!(env_var.env_value().to_string(), "VALUE1");
}

#[test]
fn generate_env_var_missing_is_empty() {
    let var = VarName::new("other".to_string());
    let env_file = env_with_two_vars();

    let env_var = generate_env_var(&env_file, &var);
    assert_eq!(env_var.var().to_string(), "other");
    assert_eq!(env_var.env_value().to_string(), "");
    match env_var.env_value() {
        EnvValue::Var(v) => assert_eq!(v.name(), "other"),
        _ => assert!(false),
    }
}

#[test]
fn generate_array_var_with_format_test() {
    let mut array_var = ArrayVar::new("all".into(), ".*".into());
    array_var.set_format("key={key},value={value}".into());
    array_var.set_delimiter(" , ".into());
    let env_file = env_with_two_vars();

    let env_var = generate_array_env_var(&env_file, &array_var).unwrap();
    assert_eq!(env_var.var().to_string(), "all");
    assert_eq!(
        env_var.env_value().to_string(),
        "key=VAR1,value=VALUE1 , key=VAR2,value=VALUE2"
    );
}

#[test]
fn generate_array_var_invalid_pattern() {
    let array_var = ArrayVar::new("all".into(), "[".into());
    let env_file = env_with_two_vars();
    match generate_array_env_var(&env_file, &array_var) {
        Err(RunFileError::InvalidPattern { pattern, .. }) => assert_eq!(pattern, "["),
        _ => assert!(false),
    }
}

#[test]
fn generate_env_vars_without_vars_takes_env() {
    let env_file = env_with_two_vars();
    let array_vars = ArrayVars::new();
    let list = generate_env_vars(&env_file, &array_vars, None).unwrap();
    assert_eq!(list.len(), 2);
    assert_eq!(list[0].var().to_string(), "VAR1");
    assert_eq!(list[1].env_value().to_string(), "VALUE2");
}

#[test]
fn generate_env_vars_with_vars() {
    let env_file = env_with_two_vars();
    let mut array_vars = ArrayVars::new();
    array_vars.add(ArrayVar::new("all".into(), "VAR2".into()));
    let mut vars = Vars::new();
    vars.add(VarName::new("var1".to_string()));
    let list = generate_env_vars(&env_file, &array_vars, Some(&vars)).unwrap();
    assert_eq!(list.len(), 2);
    assert_eq!(list[0].env_value().to_string(), "VAR2:VALUE2");
    assert_eq!(list[1].var().to_string(), "var1");
    assert_eq!(list[1].env_value().to_string(), "VALUE1");
}

#[test]
fn var_name_in_each_case() {
    let env_file = {
        let mut e = Env::new("".into());
        e.add("my_var_name", "v");
        e
    };
    let cases = [
        (VarCase::CamelCase, "MyVarName"),
        (VarCase::KebabCase, "my-var-name"),
        (VarCase::SnakeCase, "my_var_name"),
        (VarCase::ShoutySnakeCase, "MY_VAR_NAME"),
        (VarCase::MixedCase, "myVarName"),
        (VarCase::TitleCase, "My Var Name"),
        (VarCase::NoCase, "my_var_name"),
    ];
    for (case, expected) in cases.iter() {
        let mut array_var = ArrayVar::new("all".into(), ".*".into());
        array_var.set_case(*case);
        let env_var = generate_array_env_var(&env_file, &array_var).unwrap();
        assert_eq!(env_var.env_value().to_string(), format!("{}:v", expected));
    }
}

#[test]
fn generate_var_array_env_name_is_upper_case() {
    let array_var = ("all".to_string(), ".*".to_string());
    let var = generate_var(&env_with_two_vars(), &array_var).unwrap();
    assert_eq!(var.env_name, "ALL");
}
