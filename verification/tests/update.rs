use short::update::{latest, CrateInfo, UpdateError};

#[test]
fn test_current_version() {
    let current = CrateInfo::new("0.1.0").unwrap();
    assert_eq!(current.name(), "short");
    assert_eq!(current.vers(), "0.1.0");
}

#[test]
fn test_compare_version() {
    let crate_info1 = CrateInfo::new("0.0.1").unwrap();
    let crate_info2 = CrateInfo::new("0.0.2").unwrap();
    assert!(crate_info2.is_newer_than(&crate_info1));
    assert!(!crate_info1.is_newer_than(&crate_info2));
}

#[test]
fn invalid_version() {
    match CrateInfo::new("") {
        Err(UpdateError::InvalidVersion(v)) => assert_eq!(v, ""),
        _ => assert!(false),
    }
}

#[test]
fn latest_keeps_the_newest() {
    let infos = vec![
        CrateInfo::from_parts("short", "0.3.0").unwrap(),
        CrateInfo::from_parts("short", "0.10.1").unwrap(),
        CrateInfo::from_parts("short", "0.9.9").unwrap(),
    ];
    assert_eq!(latest(infos).unwrap().vers(), "0.10.1");
    assert!(matches!(latest(vec![]), Err(UpdateError::NoCrateInfo)));
}
