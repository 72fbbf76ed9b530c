use dfm::mapping::{MapAction, Mapping, TargetOS, OS};

const HOME: &str = "/home/foo";
const CURRENT_OS: OS = OS::Linux;

fn get_invalid_target_oses() -> Vec<OS> {
    vec![OS::Linux, OS::Darwin, OS::Windows]
        .into_iter()
        .filter(|os| *os != CURRENT_OS)
        .collect()
}

fn get_invalid_target_os() -> OS {
    get_invalid_target_oses()[0]
}

#[test]
fn test_skip_map_action_from_mapping() {
    assert_eq!(
        MapAction::Skip,
        MapAction::from(&Mapping::skip("README.*").unwrap(), CURRENT_OS, HOME)
    )
}

#[test]
fn test_is_not_skip_on_target_os() {
    let mapping = Mapping::new(".*snippets.*")
        .unwrap()
        .target_os(TargetOS::Single(CURRENT_OS));

    assert_eq!(MapAction::Unmapped, MapAction::from(&mapping, CURRENT_OS, HOME))
}

#[test]
fn test_is_skip_not_on_target_os() {
    let targets = get_invalid_target_oses();
    for target in targets {
        let mapping = Mapping::new(".*snippets.*")
            .unwrap()
            .target_os(TargetOS::Single(target));

        assert_eq!(MapAction::Skip, MapAction::from(&mapping, CURRENT_OS, HOME))
    }
}

#[test]
fn test_matches_mapping() {
    let mapping = Mapping::skip(".config/ghostty/macos-config").unwrap();
    assert!(mapping.does_match(".config/ghostty/macos-config"))
}

#[test]
fn test_link_as_dir_map_action_from_mapping() {
    let mapping = Mapping::new(".*snippets.*").unwrap().link_as_dir(Some(true));
    assert_eq!(MapAction::LinkAsDir, MapAction::from(&mapping, CURRENT_OS, HOME))
}

#[test]
fn test_new_dest_map_action_from_mapping() {
    let mapping = Mapping::new("LICENSE")
        .unwrap()
        .dest("/some/new/path.txt".to_string());
    assert_eq!(
        MapAction::NewDest("/some/new/path.txt".into()),
        MapAction::from(&mapping, CURRENT_OS, HOME)
    )
}

#[test]
fn test_new_target_dir_map_action_from_mapping() {
    let mapping = Mapping::new("LICENSE")
        .unwrap()
        .target_dir("/some/new/".to_string());
    assert_eq!(
        MapAction::NewTargetDir("/some/new/".into()),
        MapAction::from(&mapping, CURRENT_OS, HOME)
    )
}

#[test]
fn test_new_dest_map_action_expands_tilde() {
    let mapping = Mapping::new("LICENSE")
        .unwrap()
        .dest("~/.LICENSE.txt".to_string());
    let action = MapAction::from(&mapping, CURRENT_OS, HOME);

    match action {
        MapAction::NewDest(value) => {
            assert_ne!(value, String::from("~/.LICENSE.txt"));
            assert!(value.starts_with("/"));
            assert_eq!(value, "/home/foo/.LICENSE.txt");
        }
        _ => panic!("Reached what should be an unreachable path!"),
    }
}

#[test]
fn test_new_target_dir_map_action_expands_tilde() {
    let mapping = Mapping::new("LICENSE")
        .unwrap()
        .target_dir("~/some/subfolder".to_string());
    let action = MapAction::from(&mapping, CURRENT_OS, HOME);

    match action {
        MapAction::NewTargetDir(value) => {
            assert_ne!(value, String::from("~/some/subfolder"));
            assert!(value.starts_with("/"));
            assert_eq!(value, "/home/foo/some/subfolder");
        }
        _ => panic!("Reached what should be an unreachable path!"),
    }
}

#[test]
fn test_link_as_dir_map_action_from_mapping_on_wrong_os() {
    let mapping = Mapping::new(".*snippets.*")
        .unwrap()
        .link_as_dir(Some(true))
        .target_os(TargetOS::Single(get_invalid_target_os()));
    assert_eq!(MapAction::Unmapped, MapAction::from(&mapping, CURRENT_OS, HOME))
}

#[test]
fn test_new_dest_map_action_from_mapping_on_wrong_os() {
    let mapping = Mapping::new("LICENSE")
        .unwrap()
        .dest("/some/new/path.txt".to_string())
        .target_os(TargetOS::Single(get_invalid_target_os()));
    assert_eq!(MapAction::Unmapped, MapAction::from(&mapping, CURRENT_OS, HOME))
}

#[test]
fn test_new_target_dir_map_action_from_mapping_on_wrong_os() {
    let mapping = Mapping::new("LICENSE")
        .unwrap()
        .target_dir("/some/new/".to_string())
        .target_os(TargetOS::Single(get_invalid_target_os()));
    assert_eq!(MapAction::Unmapped, MapAction::from(&mapping, CURRENT_OS, HOME))
}

#[test]
fn skip_on_wrong_os_changes_nothing() {
    let mapping = Mapping::skip("LICENSE")
        .unwrap()
        .target_os(TargetOS::List(vec![OS::Darwin, OS::Windows]));
    assert_eq!(MapAction::Unmapped, MapAction::from(&mapping, OS::Linux, HOME));
    assert_eq!(MapAction::Skip, MapAction::from(&mapping, OS::Darwin, HOME));
}

#[test]
fn skip_comes_before_dest_and_dest_before_target_dir() {
    let all = Mapping::skip("x")
        .unwrap()
        .dest("/d".to_string())
        .target_dir("/t".to_string())
        .link_as_dir(Some(true));
    assert_eq!(MapAction::Skip, MapAction::from(&all, OS::Linux, HOME));
    let no_skip = all.with_skip(None);
    assert_eq!(MapAction::NewDest("/d".into()), MapAction::from(&no_skip, OS::Linux, HOME));
    let only_dir = Mapping::new("x")
        .unwrap()
        .target_dir("/t".to_string())
        .link_as_dir(Some(true));
    assert_eq!(
        MapAction::NewTargetDir("/t".into()),
        MapAction::from(&only_dir, OS::Linux, HOME)
    );
}

#[test]
fn flags_set_to_false_decide_nothing() {
    let mapping = Mapping::new("x")
        .unwrap()
        .with_skip(Some(false))
        .dest("/d".to_string());
    assert_eq!(MapAction::NewDest("/d".into()), MapAction::from(&mapping, OS::Linux, HOME));
    let mapping = Mapping::new("x").unwrap().link_as_dir(Some(false));
    assert_eq!(MapAction::Unmapped, MapAction::from(&mapping, OS::Linux, HOME));
}

#[test]
fn plain_mapping_on_all_systems_changes_nothing() {
    let mapping = Mapping::new("x").unwrap();
    for os in [OS::Linux, OS::Darwin, OS::Windows] {
        assert_eq!(MapAction::Unmapped, MapAction::from(&mapping, os, HOME));
    }
}

#[test]
fn system_restriction_is_asymmetric() {
    let only_os = Mapping::new("x").unwrap().target_os(TargetOS::Single(OS::Darwin));
    assert_eq!(MapAction::Skip, MapAction::from(&only_os, OS::Linux, HOME));
    let with_dest = Mapping::new("x")
        .unwrap()
        .target_os(TargetOS::Single(OS::Darwin))
        .dest("/d".to_string());
    assert_eq!(MapAction::Unmapped, MapAction::from(&with_dest, OS::Linux, HOME));
}

#[test]
fn empty_system_list_applies_nowhere() {
    let mapping = Mapping::new("x").unwrap().target_os(TargetOS::List(vec![]));
    assert_eq!(MapAction::Skip, MapAction::from(&mapping, OS::Linux, HOME));
    assert!(!TargetOS::List(vec![]).is_this_os(OS::Linux));
    assert!(TargetOS::All.is_this_os(OS::Linux));
    assert!(!TargetOS::All.is_specifically_this_os(OS::Linux));
    assert!(TargetOS::Single(OS::Linux).is_specifically_this_os(OS::Linux));
}

#[test]
fn regular_expressions_are_searched_not_anchored() {
    let mapping = Mapping::new("^a.c$").unwrap();
    assert!(mapping.does_match("abc"));
    assert!(!mapping.does_match("abcd"));
    assert!(!mapping.does_match("^a.c$"));
    let loose = Mapping::new("b").unwrap();
    assert!(loose.does_match("abc"));
}

#[test]
fn malformed_pattern_is_rejected() {
    let err = Mapping::new("foo(bar").unwrap_err();
    assert_eq!(err.kind, dfm::error::ErrorKind::RegexCompile);
    assert_eq!(err.message, "foo(bar");
    assert!(Mapping::skip("[").is_err());
}

#[test]
fn actions_and_systems_have_names() {
    assert_eq!(MapAction::NewDest("/a".into()).to_string(), "MapAction::NewDest(/a)");
    assert_eq!(MapAction::NewTargetDir("/b".into()).to_string(), "MapAction::NewTargetDir(/b)");
    assert_eq!(MapAction::LinkAsDir.to_string(), "MapAction::LinkAsDir");
    assert_eq!(MapAction::Skip.to_string(), "MapAction::Skip");
    assert_eq!(MapAction::Unmapped.to_string(), "MapAction::None");
    assert_eq!(OS::Linux.to_string(), "Linux");
    assert_eq!(OS::Darwin.to_string(), "Darwin");
    assert_eq!(OS::Windows.to_string(), "Windows");
    assert_eq!(OS::parse("Darwin"), Some(OS::Darwin));
    assert_eq!(OS::parse("darwin"), None);
}

#[test]
fn clone_keeps_the_rule() {
    let mapping = Mapping::new("LICENSE").unwrap().dest("~/x".to_string());
    let copy = mapping.clone();
    assert_eq!(
        MapAction::from(&mapping, OS::Linux, HOME),
        MapAction::from(&copy, OS::Linux, HOME)
    );
    assert!(copy.does_match("LICENSE"));
}
