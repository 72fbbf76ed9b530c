use dfm::link::Info;
use dfm::mapping::{Mapping, MappingConfig, OS};

const HOME: &str = "/home/foo";

fn current_os() -> OS {
    OS::Linux
}

fn link_info_fixture(src: &str) -> Info {
    Info::new(src, "/home/foo/.config/dfm/profile/bar", "/home/foo")
}

fn config(match_str: &str) -> MappingConfig {
    MappingConfig {
        match_str: match_str.to_string(),
        skip: None,
        dest: None,
        target_dir: None,
        link_as_dir: None,
        target_os: None,
    }
}

fn names(list: &[&str]) -> Option<Vec<String>> {
    Some(list.iter().map(|s| s.to_string()).collect())
}

#[test]
fn test_matches() {
    let path = "/home/foo/.config/dfm/profile/bar/path";
    let mut mapping_config = config("path");
    mapping_config.skip = Some(true);
    let mapping = Mapping::from_config(&mapping_config).unwrap();
    assert!(mapping.matches(path));
    let mut info = link_info_fixture(path);
    assert!(mapping.change(&mut info, current_os(), HOME).is_none());
}

#[test]
fn test_skips() {
    let path = "/some/foo/bar/path";
    let mut mapping_config = config("path");
    mapping_config.skip = Some(true);
    let mapping = Mapping::from_config(&mapping_config).unwrap();
    assert!(mapping.matches(path));
}

#[test]
fn test_transforms_target_dir() {
    let mut mapping_config = config("mongod");
    mapping_config.target_dir = Some("/etc".to_string());
    let mapping = Mapping::from_config(&mapping_config).unwrap();
    let src = "/home/foo/.config/dfm/profile/bar/mongod.conf";
    let mut info = link_info_fixture(src);
    assert!(mapping.matches(src));
    let new_info = mapping.change(&mut info, current_os(), HOME);
    assert!(new_info.is_some());
    assert_eq!(new_info.unwrap().dst, String::from("/etc/mongod.conf"));
}

#[test]
fn test_target_os() {
    let src = "/home/foo/.config/dfm/profile/bar/.bashrc";
    let mut info = link_info_fixture(src);

    let mut darwin_mapping_config = config("bashrc");
    darwin_mapping_config.target_os = names(&["Darwin"]);
    let darwin_mapping = Mapping::from_config(&darwin_mapping_config).unwrap();
    assert!(darwin_mapping.matches(src));
    if current_os() == OS::Darwin {
        assert!(darwin_mapping.change(&mut info, current_os(), HOME).is_some());
    } else {
        assert!(darwin_mapping.change(&mut info, current_os(), HOME).is_none());
    }

    let mut linux_mapping_config = config("bashrc");
    linux_mapping_config.target_os = names(&["Linux"]);
    let linux_mapping = Mapping::from_config(&linux_mapping_config).unwrap();
    assert!(linux_mapping.matches(src));
    if current_os() == OS::Linux {
        assert!(linux_mapping.change(&mut info, current_os(), HOME).is_some());
    } else {
        assert!(linux_mapping.change(&mut info, current_os(), HOME).is_none());
    }

    let mut windows_mapping_config = config("bashrc");
    windows_mapping_config.target_os = names(&["Windows"]);
    let windows_mapping = Mapping::from_config(&windows_mapping_config).unwrap();
    assert!(windows_mapping.matches(src));
    if current_os() == OS::Windows {
        assert!(windows_mapping.change(&mut info, current_os(), HOME).is_some());
    } else {
        assert!(windows_mapping.change(&mut info, current_os(), HOME).is_none());
    }

    let mut unix_mapping_config = config("bashrc");
    unix_mapping_config.target_os = names(&["Linux", "Darwin"]);
    let unix_mapping = Mapping::from_config(&unix_mapping_config).unwrap();
    assert!(unix_mapping.matches(src));
    if current_os() != OS::Windows {
        assert!(unix_mapping.change(&mut info, current_os(), HOME).is_some());
    } else {
        assert!(unix_mapping.change(&mut info, current_os(), HOME).is_none());
    }
}

#[test]
fn target_os_holds_on_every_system() {
    let src = "/home/foo/.config/dfm/profile/bar/.bashrc";
    let mut cfg = config("bashrc");
    cfg.target_os = names(&["Linux", "Darwin"]);
    let mapping = Mapping::from_config(&cfg).unwrap();
    for (os, kept) in [(OS::Linux, true), (OS::Darwin, true), (OS::Windows, false)] {
        let mut info = link_info_fixture(src);
        assert_eq!(mapping.change(&mut info, os, HOME).is_some(), kept);
    }
}

#[test]
fn unknown_system_names_match_no_system() {
    let mut cfg = config("bashrc");
    cfg.target_os = names(&["Solaris"]);
    let mapping = Mapping::from_config(&cfg).unwrap();
    let mut info = link_info_fixture("/home/foo/.config/dfm/profile/bar/.bashrc");
    assert!(mapping.change(&mut info, OS::Linux, HOME).is_none());
}

#[test]
fn change_sets_new_dest_and_keeps_source() {
    let mut cfg = config("vimrc");
    cfg.dest = Some("~/.vim/vimrc".to_string());
    let mapping = Mapping::from_config(&cfg).unwrap();
    let src = "/home/foo/.config/dfm/profile/bar/.vimrc";
    let mut info = link_info_fixture(src);
    let changed = mapping.change(&mut info, OS::Linux, HOME).unwrap();
    assert_eq!(changed.dst, "/home/foo/.vim/vimrc");
    assert_eq!(changed.src, src);
    assert_eq!(info, changed);
}

#[test]
fn invalid_pattern_is_a_regex_error() {
    let cfg = config("foo(bar");
    let err = Mapping::from_config(&cfg).unwrap_err();
    assert_eq!(err.kind, dfm::error::ErrorKind::RegexCompile);
    assert_eq!(err.message, "foo(bar");
    assert_eq!(err.profile_path, "");
}
