use dfm::error::ErrorKind;
use dfm::link::{remove_if_able, FsOp, Info, LinkStep, TargetState};
use dfm::linker::{is_dotfile, Entry, Link, Linker, Visit};
use dfm::mapper::Mapper;
use dfm::mapping::{MapAction, Mapping, TargetOS, OS};

const HOME: &str = "/home/foo";
const ROOT: &str = "/home/foo/.config/dfm/profiles/bar";

fn mapper(mappings: Vec<Mapping>) -> Mapper {
    Mapper::from(Some(mappings), OS::Linux, HOME).unwrap()
}

fn file(path: &str) -> Entry {
    Entry { path: path.to_string(), is_dir: false }
}

fn dir(path: &str) -> Entry {
    Entry { path: path.to_string(), is_dir: true }
}

fn link(rel: &str, target: &str) -> Link {
    Link { source: format!("{ROOT}/{rel}"), target: target.to_string() }
}

#[test]
fn bashrc_links_under_home() {
    let mapper = Mapper::from(None, OS::Linux, HOME).unwrap();
    let linker = Linker { mapper: &mapper, root: ROOT };
    let links = linker.plan(&vec![file(".bashrc")]);
    assert_eq!(links, vec![link(".bashrc", "/home/foo/.bashrc")]);
    let info = Info::new(&links[0].source, ROOT, HOME);
    assert_eq!(info.dst, "/home/foo/.bashrc");
    assert_eq!(info.link(TargetState::Missing).unwrap(), LinkStep::Create);
}

#[test]
fn unmatched_paths_link_at_home_joined_with_the_path() {
    let mapper = mapper(vec![Mapping::new("^never$").unwrap().dest("/x".to_string())]);
    assert_eq!(mapper.get_mapped_action(".config/nvim/init.lua"), MapAction::Unmapped);
    let linker = Linker { mapper: &mapper, root: ROOT };
    assert_eq!(
        linker.visit(".config/nvim/init.lua", false),
        Visit::Link { target: "/home/foo/.config/nvim/init.lua".to_string(), prune: false }
    );
}

#[test]
fn default_rules_never_link_repository_files() {
    let mapper = Mapper::from(None, OS::Linux, HOME).unwrap();
    for path in ["README.md", "LICENSE", ".gitignore", ".git", ".dfm.yml"] {
        assert_eq!(mapper.get_mapped_action(path), MapAction::Skip, "{path}");
    }
    assert_eq!(mapper.get_mapped_action("README"), MapAction::Unmapped);
    assert_eq!(mapper.get_mapped_action(".bashrc"), MapAction::Unmapped);
    let linker = Linker { mapper: &mapper, root: ROOT };
    let entries = vec![
        dir(".git"),
        file(".git/config"),
        file(".dfm.yml"),
        file(".gitignore"),
        file("LICENSE"),
        file("README.md"),
        file(".bashrc"),
    ];
    assert_eq!(linker.plan(&entries), vec![link(".bashrc", "/home/foo/.bashrc")]);
}

#[test]
fn first_matching_rule_governs() {
    let first = Mapping::new("vimrc").unwrap().dest("/first".to_string());
    let second = Mapping::new("vim").unwrap().dest("/second".to_string());
    let mapper = mapper(vec![first, second]);
    assert_eq!(mapper.get_mapped_action(".vimrc"), MapAction::NewDest("/first".into()));
    assert_eq!(mapper.get_mapped_action(".vim/x"), MapAction::NewDest("/second".into()));
}

#[test]
fn declared_rules_precede_built_in_rules() {
    let early = mapper(vec![
        Mapping::new("^README").unwrap().dest("/docs/README.md".to_string()),
        Mapping::new("other").unwrap(),
    ]);
    assert_eq!(
        early.get_mapped_action("README.md"),
        MapAction::NewDest("/docs/README.md".into())
    );
    let late = mapper(vec![
        Mapping::new("other").unwrap(),
        Mapping::new("^README").unwrap().dest("/docs/README.md".to_string()),
    ]);
    assert_eq!(
        late.get_mapped_action("README.md"),
        MapAction::NewDest("/docs/README.md".into())
    );
    assert_eq!(late.get_mapped_action("LICENSE"), MapAction::Skip);
}

#[test]
fn with_rules_puts_the_first_list_first() {
    let user = vec![Mapping::new("a").unwrap().dest("/user".to_string())];
    let defaults = vec![Mapping::skip("a").unwrap(), Mapping::skip("b").unwrap()];
    let mapper = Mapper::with_rules(user, defaults, OS::Darwin, "/Users/me");
    assert_eq!(mapper.get_mapped_action("a"), MapAction::NewDest("/user".into()));
    assert_eq!(mapper.get_mapped_action("b"), MapAction::Skip);
    assert_eq!(mapper.get_mapped_action("c"), MapAction::Unmapped);
    assert_eq!(mapper.home_dir(), "/Users/me");
    assert_eq!(mapper.os(), OS::Darwin);
    assert_eq!(Mapper::defaults().unwrap().len(), 5);
}

#[test]
fn skip_mappings_reports_the_first_bad_pattern() {
    let err = dfm::mapper::skip_mappings(&vec!["ok", "(", "["]).unwrap_err();
    assert_eq!(err.kind, ErrorKind::RegexCompile);
    assert_eq!(err.message, "(");
    assert_eq!(dfm::mapper::skip_mappings(&vec!["a", "b"]).unwrap().len(), 2);
}

#[test]
fn skip_does_not_prune() {
    let mapper = mapper(vec![Mapping::skip("^\\.config$").unwrap()]);
    let linker = Linker { mapper: &mapper, root: ROOT };
    assert_eq!(linker.visit(".config", true), Visit::Descend);
    assert!(linker.reaches(".config/nvim/init.lua"));
    let entries = vec![dir(".config"), dir(".config/nvim"), file(".config/nvim/init.lua")];
    assert_eq!(
        linker.plan(&entries),
        vec![link(".config/nvim/init.lua", "/home/foo/.config/nvim/init.lua")]
    );
}

#[test]
fn skipped_files_are_not_linked() {
    let mapper = mapper(vec![Mapping::skip("secret").unwrap()]);
    let linker = Linker { mapper: &mapper, root: ROOT };
    assert_eq!(linker.visit("secret.txt", false), Visit::Skip);
    assert_eq!(linker.plan(&vec![file("secret.txt"), file("open.txt")]), vec![link(
        "open.txt",
        "/home/foo/open.txt"
    )]);
}

#[test]
fn link_as_dir_prunes() {
    let mapper = mapper(vec![Mapping::new("^\\.vim$").unwrap().link_as_dir(Some(true))]);
    let linker = Linker { mapper: &mapper, root: ROOT };
    assert_eq!(
        linker.visit(".vim", true),
        Visit::Link { target: "/home/foo/.vim".to_string(), prune: true }
    );
    assert!(!linker.reaches(".vim/colors/a.vim"));
    assert!(linker.reaches(".vim"));
    let entries = vec![
        dir(".vim"),
        dir(".vim/colors"),
        file(".vim/colors/a.vim"),
        file(".vim/vimrc"),
        file(".zshrc"),
    ];
    assert_eq!(
        linker.plan(&entries),
        vec![link(".vim", "/home/foo/.vim"), link(".zshrc", "/home/foo/.zshrc")]
    );
}

#[test]
fn link_as_dir_on_a_file_links_the_file() {
    let mapper = mapper(vec![Mapping::new("notes").unwrap().link_as_dir(Some(true))]);
    let linker = Linker { mapper: &mapper, root: ROOT };
    assert_eq!(
        linker.visit("notes", false),
        Visit::Link { target: "/home/foo/notes".to_string(), prune: false }
    );
}

#[test]
fn directories_are_descended_not_linked() {
    let mapper = mapper(vec![
        Mapping::new("^etc$").unwrap().target_dir("/".to_string()),
        Mapping::new("^opt$").unwrap().dest("/opt".to_string()),
    ]);
    let linker = Linker { mapper: &mapper, root: ROOT };
    assert_eq!(linker.visit("etc", true), Visit::Descend);
    assert_eq!(linker.visit("opt", true), Visit::Descend);
    assert_eq!(linker.visit("plain", true), Visit::Descend);
}

#[test]
fn target_dir_keeps_the_relative_path() {
    let mapper = mapper(vec![Mapping::new("mongod").unwrap().target_dir("/etc".to_string())]);
    let linker = Linker { mapper: &mapper, root: ROOT };
    assert_eq!(
        linker.visit("mongod.conf", false),
        Visit::Link { target: "/etc/mongod.conf".to_string(), prune: false }
    );
    assert_eq!(
        linker.visit("db/mongod.conf", false),
        Visit::Link { target: "/etc/db/mongod.conf".to_string(), prune: false }
    );
}

#[test]
fn new_dest_ignores_the_relative_path() {
    let mapper = mapper(vec![Mapping::new("gitconfig").unwrap().dest("~/.gitconfig".to_string())]);
    let linker = Linker { mapper: &mapper, root: ROOT };
    assert_eq!(
        linker.visit("git/gitconfig", false),
        Visit::Link { target: "/home/foo/.gitconfig".to_string(), prune: false }
    );
}

#[test]
fn system_files_are_ignored_and_pruned() {
    let mapper = mapper(vec![Mapping::new(".*").unwrap().dest("/x".to_string())]);
    let linker = Linker { mapper: &mapper, root: ROOT };
    assert_eq!(linker.visit(".git", true), Visit::Ignore);
    assert_eq!(linker.visit(".dfm.yml", false), Visit::Ignore);
    assert_eq!(linker.visit("sub/.git", true), Visit::Ignore);
    assert!(!linker.reaches(".git/config"));
    assert!(!linker.reaches("sub/.git/hooks/pre-commit"));
    assert!(is_dotfile(".bashrc"));
    assert!(!is_dotfile(".git"));
    assert!(!is_dotfile(".dfm.yml"));
    assert!(is_dotfile(".gitignore"));
}

#[test]
fn rules_for_other_systems_fall_back_to_default_linking() {
    let mapper = mapper(vec![
        Mapping::new("karabiner")
            .unwrap()
            .dest("/mac/karabiner".to_string())
            .target_os(TargetOS::Single(OS::Darwin)),
        Mapping::new("skhd").unwrap().target_os(TargetOS::Single(OS::Darwin)),
    ]);
    let linker = Linker { mapper: &mapper, root: ROOT };
    assert_eq!(
        linker.plan(&vec![file("karabiner.json"), file("skhdrc")]),
        vec![link("karabiner.json", "/home/foo/karabiner.json")]
    );
}

#[test]
fn a_conflict_skips_one_file_and_the_pass_goes_on() {
    let mapper = Mapper::from(None, OS::Linux, HOME).unwrap();
    let linker = Linker { mapper: &mapper, root: ROOT };
    let links = linker.plan(&vec![file(".vimrc"), file(".zshrc")]);
    assert_eq!(links.len(), 2);
    let vimrc = Info::new(&links[0].source, ROOT, HOME);
    assert_eq!(vimrc.dst, "/home/foo/.vimrc");
    assert_eq!(vimrc.link(TargetState::File), Ok(LinkStep::Conflict));
    let zshrc = Info::new(&links[1].source, ROOT, HOME);
    assert_eq!(zshrc.link(TargetState::Missing), Ok(LinkStep::Create));
}

#[test]
fn conflict_policy() {
    for overwrite in [false, true] {
        assert_eq!(remove_if_able(TargetState::Missing, overwrite), Some(LinkStep::Create));
        assert_eq!(remove_if_able(TargetState::Symlink, overwrite), Some(LinkStep::Replace));
        assert_eq!(remove_if_able(TargetState::Denied, overwrite), None);
    }
    assert_eq!(remove_if_able(TargetState::File, false), Some(LinkStep::Conflict));
    assert_eq!(remove_if_able(TargetState::File, true), Some(LinkStep::Replace));
    assert_eq!(remove_if_able(TargetState::Directory, false), Some(LinkStep::Conflict));
    assert_eq!(remove_if_able(TargetState::Directory, true), Some(LinkStep::ReplaceTree));
}

#[test]
fn permission_denied_is_an_error() {
    let info = Info::new("/p/bar/.vimrc", "/p/bar", HOME);
    let err = info.link(TargetState::Denied).unwrap_err();
    assert_eq!(err.kind, ErrorKind::PermissionDenied);
    assert_eq!(err.profile_path, "/p/bar");
    assert_eq!(err.message, "/home/foo/.vimrc");
}

#[test]
fn linking_twice_with_overwrite_is_stable() {
    let mut info = Info::new("/p/bar/.vimrc", "/p/bar", HOME);
    info.overwrite = true;
    for found in [
        TargetState::Missing,
        TargetState::Symlink,
        TargetState::File,
        TargetState::Directory,
    ] {
        let first = info.link(found).unwrap();
        assert_ne!(first, LinkStep::Conflict);
        let second = info.link(TargetState::Symlink).unwrap();
        assert_eq!(second, LinkStep::Replace);
    }
}

#[test]
fn retarget_moves_the_destination() {
    let mut info = Info::new("/p/bar/a/b.conf", "/p/bar", "/home/foo");
    assert_eq!(info.dst, "/home/foo/a/b.conf");
    info.retarget("/etc");
    assert_eq!(info.dst, "/etc/a/b.conf");
    assert_eq!(info.src, "/p/bar/a/b.conf");
    assert_eq!(info.profile_dir, "/p/bar");
    assert!(!info.overwrite);
    assert_eq!(info.clone(), info);
}

#[test]
fn operations_remove_then_make_parents_then_link() {
    let mut info = Info::new("/p/bar/.config/nvim/init.lua", "/p/bar", HOME);
    info.overwrite = true;
    let symlink = FsOp::Symlink {
        source: "/p/bar/.config/nvim/init.lua".to_string(),
        target: "/home/foo/.config/nvim/init.lua".to_string(),
    };
    let dirs = FsOp::MakeDirs("/home/foo/.config/nvim".to_string());
    assert_eq!(info.operations(LinkStep::Create), vec![dirs.clone(), symlink.clone()]);
    assert_eq!(
        info.operations(LinkStep::Replace),
        vec![
            FsOp::RemoveFile("/home/foo/.config/nvim/init.lua".to_string()),
            dirs.clone(),
            symlink.clone()
        ]
    );
    assert_eq!(
        info.operations(LinkStep::ReplaceTree),
        vec![FsOp::RemoveTree("/home/foo/.config/nvim/init.lua".to_string()), dirs, symlink]
    );
    assert_eq!(info.operations(LinkStep::Conflict), vec![]);
}

#[test]
fn operations_make_no_directory_for_a_bare_name() {
    let info = Info {
        src: "/p/bar/x".to_string(),
        dst: "x".to_string(),
        overwrite: false,
        profile_dir: "/p/bar".to_string(),
    };
    assert_eq!(
        info.operations(LinkStep::Create),
        vec![FsOp::Symlink { source: "/p/bar/x".to_string(), target: "x".to_string() }]
    );
}

#[test]
fn conflicts_are_reported_with_the_destination() {
    let info = Info::new("/p/bar/.vimrc", "/p/bar", HOME);
    let report = info.conflict();
    assert_eq!(report.kind, ErrorKind::FilesystemConflict);
    assert_eq!(report.profile_path, "/p/bar");
    assert_eq!(
        report.message,
        "/home/foo/.vimrc: file exists and is not a symlink, cowardly refusing to remove."
    );
}

#[test]
fn steps_leave_a_symlink_unless_they_are_conflicts() {
    assert_eq!(LinkStep::Create.leaves(TargetState::Missing), TargetState::Symlink);
    assert_eq!(LinkStep::Replace.leaves(TargetState::File), TargetState::Symlink);
    assert_eq!(LinkStep::ReplaceTree.leaves(TargetState::Directory), TargetState::Symlink);
    assert_eq!(LinkStep::Conflict.leaves(TargetState::File), TargetState::File);
    assert_eq!(LinkStep::Conflict.leaves(TargetState::Directory), TargetState::Directory);
}

#[test]
fn mappings_hand_out_their_pattern() {
    assert_eq!(Mapping::new("^a.c$").unwrap().term(), "^a.c$");
}
