use ripi::{
    base_path, base_path_all, base_path_closed, check_if_dir_is_repo, get_closed_dir,
    get_file_name, get_valid_issue, get_valid_repo, is_not_empty, is_valid_iso_date, slug,
    slug_tag, sys_base_path, traverse_dirs, traverse_files, Entry, Issue, IssueError, Issues, KanbanDirs,
    Location, Status,
};

fn dir(name: &str) -> Entry {
    Entry { name: name.to_string(), is_dir: true }
}

fn file(name: &str) -> Entry {
    Entry { name: name.to_string(), is_dir: false }
}

fn parts(l: &Location) -> Vec<String> {
    l.parts.clone()
}

fn board(listings: Vec<Vec<Entry>>) -> Issues {
    Issues::get_all(&listings).unwrap()
}

fn sample_board() -> Issues {
    board(vec![
        vec![dir("write_docs"), file(".kanban")],
        vec![dir("fix_login_bug")],
        vec![],
        vec![dir("ship_it")],
        vec![file(".kanban")],
    ])
}

#[test]
fn get_all_indexes_every_stage() {
    let issues = sample_board();
    let a = issues.get(&"write_docs".to_string()).unwrap();
    let b = issues.get(&"fix_login_bug".to_string()).unwrap();
    let c = issues.get(&"ship_it".to_string()).unwrap();
    assert_eq!(parts(&a.path), vec!["_0_backlog", "write_docs"]);
    assert_eq!(parts(&b.path), vec!["_1_todo", "fix_login_bug"]);
    assert_eq!(parts(&c.path), vec!["_3_staging", "ship_it"]);
    assert!(!a.path.same_as(&b.path));
    assert!(issues.get(&".kanban".to_string()).is_none());
}

#[test]
fn get_all_rejects_a_name_in_two_stages() {
    let r = Issues::get_all(&vec![
        vec![dir("same")],
        vec![],
        vec![dir("other"), dir("same")],
        vec![],
        vec![],
    ]);
    match r {
        Err(IssueError::AlreadyExists { name, path }) => {
            assert_eq!(name, "same");
            assert_eq!(parts(&path), vec!["_0_backlog", "same"]);
        }
        _ => panic!("expected AlreadyExists"),
    }
}

#[test]
fn adding_a_taken_name_fails_and_keeps_index() {
    let mut issues = sample_board();
    let dup = Issue::new("ship_it".to_string(), Location::parse("_0_backlog/ship_it"));
    match issues.add(dup) {
        Err(IssueError::AlreadyExists { name, path }) => {
            assert_eq!(name, "ship_it");
            assert_eq!(parts(&path), vec!["_3_staging", "ship_it"]);
        }
        _ => panic!("expected AlreadyExists"),
    }
    let kept = issues.get(&"ship_it".to_string()).unwrap();
    assert_eq!(parts(&kept.path), vec!["_3_staging", "ship_it"]);
    let fresh = Issue::new("new_one".to_string(), Location::parse("_2_doing/new_one"));
    assert!(issues.already_exists(&fresh).is_ok());
    assert!(issues.add(fresh).is_ok());
    assert!(issues.get(&"new_one".to_string()).is_some());
}

#[test]
fn name_and_path_give_the_same_issue() {
    let issues = sample_board();
    let by_name = Issue::get_from_str(&issues, "fix_login_bug").unwrap();
    let by_path = Issue::get_from_str(&issues, "_1_todo/fix_login_bug").unwrap();
    assert_eq!(by_name.name, by_path.name);
    assert!(by_name.path.same_as(&by_path.path));
    assert_eq!(by_name.name, "fix_login_bug");
}

#[test]
fn path_outside_stages_is_rejected() {
    let issues = sample_board();
    match Issue::get_from_str(&issues, "elsewhere/fix_login_bug") {
        Err(IssueError::InvalidStage { path }) => assert_eq!(parts(&path), vec!["elsewhere"]),
        _ => panic!("expected InvalidStage"),
    }
    match Issue::get_from_str(&issues, "_2_doing/fix_login_bug") {
        Err(IssueError::NoMatch { input }) => assert_eq!(input, "_2_doing/fix_login_bug"),
        _ => panic!("expected NoMatch"),
    }
    match Issue::get_from_str(&issues, "no_such_issue") {
        Err(IssueError::NoMatch { input }) => assert_eq!(input, "no_such_issue"),
        _ => panic!("expected NoMatch"),
    }
    match Issue::get_from_str(&issues, "") {
        Err(IssueError::NoMatch { input }) => assert_eq!(input, ""),
        _ => panic!("expected NoMatch"),
    }
}

#[test]
fn status_from_files_cases() {
    let d = Location::parse("_1_todo/fix_login_bug");
    assert_eq!(Status::status_from_files(&d, &vec![]).unwrap(), None);
    assert_eq!(Status::status_from_files(&d, &vec![dir("notes")]).unwrap(), None);
    assert_eq!(
        Status::status_from_files(&d, &vec![file("Todo"), dir("notes")]).unwrap(),
        Some(Status::Todo)
    );
    assert_eq!(Status::status_from_files(&d, &vec![file("Doing")]).unwrap(), Some(Status::Doing));
    match Status::status_from_files(&d, &vec![file("Todo"), file("Doing")]) {
        Err(IssueError::MultipleStatusMarkers { found }) => assert_eq!(found, vec!["Todo", "Doing"]),
        _ => panic!("expected MultipleStatusMarkers"),
    }
    match Status::status_from_files(&d, &vec![file("Done")]) {
        Err(IssueError::InvalidStatus { found, allowed }) => {
            assert_eq!(found, "Done");
            assert_eq!(allowed, vec!["Todo", "Doing"]);
        }
        _ => panic!("expected InvalidStatus"),
    }
}

#[test]
fn status_names_and_vocabulary() {
    assert_eq!(Status::all(), vec![Status::Todo, Status::Doing]);
    assert_eq!(Status::Todo.name(), "Todo");
    assert_eq!(Status::parse(&"Doing".to_string()), Some(Status::Doing));
    assert_eq!(Status::parse(&"todo".to_string()), None);
}

#[test]
fn ensure_twice_creates_nothing_the_second_time() {
    let stages = KanbanDirs::new();
    let first = stages.missing(&vec![true, false, true, false, false]);
    let names: Vec<Vec<String>> = first.iter().map(parts).collect();
    assert_eq!(names, vec![vec!["_1_todo"], vec!["_3_staging"], vec!["_4_closed"]]);
    assert!(stages.missing(&vec![true; 5]).is_empty());
    assert_eq!(stages.missing(&vec![false; 5]).len(), 5);
    assert_eq!(KanbanDirs::marker_name(), ".kanban");
}

#[test]
fn stage_membership() {
    let stages = KanbanDirs::new();
    assert!(stages.is_kanban(&Location::parse("_2_doing")).is_ok());
    assert!(stages.is_kanban(&Location::parse("./_2_doing/x")).is_err());
    let all: Vec<Vec<String>> = stages.as_vec().iter().map(parts).collect();
    assert_eq!(
        all,
        vec![vec!["_0_backlog"], vec!["_1_todo"], vec!["_2_doing"], vec!["_3_staging"], vec!["_4_closed"]]
    );
}

#[test]
fn create_then_find_then_create_again() {
    let mut issues = Issues::get_all(&vec![vec![], vec![], vec![], vec![], vec![]]).unwrap();
    let created = issues.create(slug("Fix login bug")).unwrap();
    assert_eq!(parts(&created.path), vec!["_1_todo", "fix_login_bug"]);
    assert_eq!(Issue::heading("Fix login bug"), "# Fix login bug");
    assert_eq!(Issue::description_name(), "description.md");
    let by_name = Issue::get_from_str(&issues, "fix_login_bug").unwrap();
    assert!(by_name.path.same_as(&created.path));
    let by_path = Issue::get_from_str(&issues, "_1_todo/fix_login_bug").unwrap();
    assert!(by_path.path.same_as(&created.path));
    match issues.create("fix_login_bug".to_string()) {
        Err(IssueError::AlreadyExists { name, .. }) => assert_eq!(name, "fix_login_bug"),
        _ => panic!("expected AlreadyExists"),
    }
}

#[test]
fn listing_helpers() {
    let root = Location::parse("_0_backlog");
    let files = traverse_files(&root, &vec![file("a"), dir("b"), file("c")]);
    let got: Vec<Vec<String>> = files.iter().map(parts).collect();
    assert_eq!(got, vec![vec!["_0_backlog", "a"], vec!["_0_backlog", "b"], vec!["_0_backlog", "c"]]);
    let only_dir = traverse_files(&root, &vec![dir("sub")]);
    assert_eq!(only_dir.len(), 1);
    assert_eq!(parts(&only_dir[0]), vec!["_0_backlog", "sub"]);
    assert!(traverse_files(&root, &vec![]).is_empty());
    let dirs = traverse_dirs(
        &vec![Location::parse("x"), Location::parse("y")],
        &vec![vec![dir("one"), file("f")], vec![dir("two")]],
    );
    let got: Vec<Vec<String>> = dirs.iter().map(parts).collect();
    assert_eq!(got, vec![vec!["x", "one"], vec!["y", "two"]]);
}

#[test]
fn paths_are_compared_by_parts() {
    let a = Location::parse("a//b/./c/");
    assert_eq!(parts(&a), vec!["a", "b", "c"]);
    assert!(a.same_as(&Location::parse("a/b/c")));
    assert!(!a.same_as(&Location::parse("a/b")));
    assert_eq!(get_file_name(&a), "c");
    assert_eq!(parts(&a.parent().unwrap()), vec!["a", "b"]);
    assert!(Location::parse("").file_name().is_none());
    assert_eq!(parts(&Location::parse("a").join("/etc")), vec!["/", "etc"]);
}

#[test]
fn base_paths() {
    assert_eq!(parts(&sys_base_path()), vec!["ripi"]);
    assert_eq!(parts(&base_path("issues")), vec!["ripi", "issues"]);
    assert_eq!(parts(&get_closed_dir()), vec!["ripi", ".closed"]);
    assert_eq!(parts(&base_path_closed("issues")), vec!["ripi", ".closed", "issues"]);
    let all: Vec<Vec<String>> = base_path_all("sprints").iter().map(parts).collect();
    assert_eq!(all, vec![vec!["ripi", "sprints"], vec!["ripi", ".closed", "sprints"]]);
}

#[test]
fn argument_checks() {
    assert_eq!(is_not_empty("x").unwrap(), "x");
    assert!(matches!(is_not_empty(""), Err(IssueError::EmptyName)));
    assert_eq!(is_valid_iso_date("2024-02-29").unwrap(), "2024-02-29");
    assert!(matches!(is_valid_iso_date("2023-02-29"), Err(IssueError::InvalidDate { .. })));
    assert!(is_valid_iso_date("29/02/2024").is_err());
    assert!(check_if_dir_is_repo(true).is_ok());
    assert!(matches!(check_if_dir_is_repo(false), Err(IssueError::NotARepository)));
    let group = Location::parse("/home/me/projects");
    assert_eq!(parts(&get_valid_repo(&group, "board", true).unwrap()), vec!["/", "home", "me", "projects", "board"]);
    assert!(get_valid_repo(&group, "board", false).is_err());
    let repo = Location::parse("ripi");
    assert_eq!(parts(&get_valid_issue(&repo, "7", true).unwrap()), vec!["ripi", "7"]);
    match get_valid_issue(&repo, "7", false) {
        Err(IssueError::InvalidIssue { path }) => assert_eq!(parts(&path), vec!["ripi", "7"]),
        _ => panic!("expected InvalidIssue"),
    }
}

#[test]
fn resolve_path_takes_the_parsed_path() {
    let issues = sample_board();
    let p = Location::parse("_1_todo/fix_login_bug");
    let i = Issue::resolve_path(&issues, "_1_todo/fix_login_bug", &p).unwrap();
    assert_eq!(i.name, "fix_login_bug");
    assert!(i.path.same_as(&p));
    let by_name = Issue::resolve_path(&issues, "ship_it", &Location::parse("ship_it")).unwrap();
    assert_eq!(parts(&by_name.path), vec!["_3_staging", "ship_it"]);
    match Issue::resolve_path(&issues, "x/ship_it", &Location::parse("x/ship_it")) {
        Err(IssueError::InvalidStage { path }) => assert_eq!(parts(&path), vec!["x"]),
        _ => panic!("expected InvalidStage"),
    }
    match Issue::resolve_path(&issues, "_0_backlog/ship_it", &Location::parse("_0_backlog/ship_it")) {
        Err(IssueError::NoMatch { input }) => assert_eq!(input, "_0_backlog/ship_it"),
        _ => panic!("expected NoMatch"),
    }
}

#[test]
fn slugs_of_titles_and_tags() {
    assert_eq!(slug("Fix login bug"), "fix_login_bug");
    assert_eq!(slug("  Hello,  World! "), "hello_world");
    assert_eq!(slug_tag("Fix login bug"), "fix-login-bug");
    assert_eq!(slug(""), "");
}

#[test]
fn stage_set_is_fixed_whatever_the_receiver_holds() {
    let mut odd = KanbanDirs::new();
    odd.backlog = Location::parse("elsewhere");
    match odd.is_kanban(&Location::parse("elsewhere")) {
        Err(IssueError::InvalidStage { path }) => assert_eq!(parts(&path), vec!["elsewhere"]),
        _ => panic!("expected InvalidStage"),
    }
    assert!(odd.is_kanban(&Location::parse("_0_backlog")).is_ok());
    assert!(odd.is_kanban(&Location::parse("_4_closed")).is_ok());
}
