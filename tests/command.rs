use todo_store::cmd::{parse_command, Cmd, Command, CommandError, Reply, Verb};
use todo_store::parse::{parse_id, parse_status, split_tokens};
use todo_store::store::StoreHashmap;
use todo_store::todo::{u8_to_decimal, TodoStatus, TodoStore, UpdateTodo};

fn fresh() -> Cmd {
    Cmd::new(StoreHashmap::new())
}

fn found(c: &mut Cmd, line: &str) -> Option<(u8, String, TodoStatus)> {
    match c.parse_commands(line) {
        Reply::Found(t) => t.map(|t| (t.id, t.name, t.status)),
        _ => panic!("expected a lookup reply"),
    }
}

#[test]
fn scenario_add_mark_rename_get_delete() {
    let mut c = fresh();
    match c.parse_commands("add milk") {
        Reply::Added(rs) => {
            assert_eq!(rs.len(), 1);
            let t = rs[0].as_ref().unwrap();
            assert_eq!(t.id, 1);
            assert_eq!(t.status, TodoStatus::TODO);
        }
        _ => panic!("expected an add reply"),
    }
    match c.parse_commands("mark 1 done") {
        Reply::Updated(Ok(t)) => {
            assert_eq!(t.status, TodoStatus::DONE);
            assert_eq!(t.name, "milk");
        }
        _ => panic!("expected an update"),
    }
    match c.parse_commands("rename 1 bread") {
        Reply::Updated(Ok(t)) => {
            assert_eq!(t.name, "bread");
            assert_eq!(t.status, TodoStatus::DONE);
        }
        _ => panic!("expected an update"),
    }
    assert_eq!(found(&mut c, "get 1"), Some((1, "bread".to_string(), TodoStatus::DONE)));
    assert!(matches!(c.parse_commands("delete 1"), Reply::Deleted));
    assert_eq!(found(&mut c, "get 1"), None);
}

#[test]
fn store_level_scenario_with_spaced_name() {
    let mut s = StoreHashmap::new();
    let t = s.add("buy milk".to_string()).unwrap();
    assert_eq!((t.id, t.status), (1, TodoStatus::TODO));
    let t = s.update(UpdateTodo { id: 1, name: None, status: Some(TodoStatus::DONE) }).unwrap();
    assert_eq!((t.name.as_str(), t.status), ("buy milk", TodoStatus::DONE));
    let t = s
        .update(UpdateTodo { id: 1, name: Some("buy bread".to_string()), status: None })
        .unwrap();
    assert_eq!((t.name.as_str(), t.status), ("buy bread", TodoStatus::DONE));
    let g = s.get(1).unwrap();
    assert_eq!((g.id, g.name.as_str(), g.status), (1, "buy bread", TodoStatus::DONE));
    s.remove(1);
    assert!(s.get(1).is_none());
}

#[test]
fn add_splits_names_at_spaces() {
    let mut c = fresh();
    match c.parse_commands("add a b") {
        Reply::Added(rs) => {
            let got: Vec<(u8, String)> =
                rs.into_iter().map(|r| r.unwrap()).map(|t| (t.id, t.name)).collect();
            assert_eq!(got, vec![(1, "a".to_string()), (2, "b".to_string())]);
        }
        _ => panic!("expected an add reply"),
    }
    assert_eq!(c.db().len(), 2);
}

#[test]
fn command_word_is_case_insensitive() {
    let mut c = fresh();
    assert!(matches!(c.parse_commands("ADD x"), Reply::Added(_)));
    assert!(matches!(c.parse_commands("Mark 1 DoNe"), Reply::Updated(Ok(_))));
    assert_eq!(found(&mut c, "GET 1"), Some((1, "x".to_string(), TodoStatus::DONE)));
}

#[test]
fn arity_errors_change_nothing() {
    let mut c = fresh();
    c.parse_commands("add x");
    assert!(matches!(c.parse_commands("get"), Reply::Rejected(CommandError::Usage(Verb::Get))));
    assert!(matches!(
        c.parse_commands("delete 1 2"),
        Reply::Rejected(CommandError::Usage(Verb::Delete))
    ));
    assert!(matches!(
        c.parse_commands("rename 1"),
        Reply::Rejected(CommandError::Usage(Verb::Rename))
    ));
    assert!(matches!(
        c.parse_commands("mark 1 done now"),
        Reply::Rejected(CommandError::Usage(Verb::Mark))
    ));
    assert_eq!(c.db().len(), 1);
}

#[test]
fn bad_arguments_are_rejected() {
    let mut c = fresh();
    assert!(matches!(c.parse_commands("get abc"), Reply::Rejected(CommandError::InvalidId)));
    assert!(matches!(c.parse_commands("get 0"), Reply::Rejected(CommandError::InvalidId)));
    assert!(matches!(c.parse_commands("get 256"), Reply::Rejected(CommandError::InvalidId)));
    assert!(matches!(
        c.parse_commands("mark 1 maybe"),
        Reply::Rejected(CommandError::InvalidStatus)
    ));
    assert!(matches!(c.parse_commands("frobnicate"), Reply::Rejected(CommandError::Unknown)));
}

#[test]
fn update_of_missing_record_reports_not_found() {
    let mut c = fresh();
    assert!(matches!(c.parse_commands("rename 3 x"), Reply::Updated(Err(_))));
    assert!(matches!(c.parse_commands("delete 3"), Reply::Deleted));
}

#[test]
fn list_exit_help() {
    let mut c = fresh();
    match c.parse_commands("list") {
        Reply::List(v) => assert!(v.is_empty()),
        _ => panic!("expected a list"),
    }
    c.parse_commands("add a b c");
    match c.parse_commands("list") {
        Reply::List(v) => assert_eq!(v.len(), 3),
        _ => panic!("expected a list"),
    }
    assert!(matches!(c.parse_commands("exit"), Reply::Exit));
    assert!(matches!(c.parse_commands("help"), Reply::Help));
}

#[test]
fn parse_id_accepts_one_to_255() {
    assert_eq!(parse_id("1"), Some(1));
    assert_eq!(parse_id("255"), Some(255));
    assert_eq!(parse_id("+7"), Some(7));
    assert_eq!(parse_id("007"), Some(7));
    assert_eq!(parse_id("0"), None);
    assert_eq!(parse_id("256"), None);
    assert_eq!(parse_id("99999"), None);
    assert_eq!(parse_id(""), None);
    assert_eq!(parse_id("+"), None);
    assert_eq!(parse_id("-1"), None);
    assert_eq!(parse_id("1a"), None);
}

#[test]
fn parse_status_any_case() {
    assert_eq!(parse_status("done"), Some(TodoStatus::DONE));
    assert_eq!(parse_status("TODO"), Some(TodoStatus::TODO));
    assert_eq!(parse_status("Todo"), Some(TodoStatus::TODO));
    assert_eq!(parse_status("finished"), None);
}

#[test]
fn split_tokens_cuts_at_runs_of_white_space() {
    assert_eq!(split_tokens("add a b"), vec!["add", "a", "b"]);
    assert!(split_tokens("").is_empty());
    assert!(split_tokens(" \t ").is_empty());
    assert_eq!(split_tokens("a  b"), vec!["a", "b"]);
    assert_eq!(split_tokens(" a\tb\n"), vec!["a", "b"]);
    assert_eq!(split_tokens("x\u{3000}y\u{a0}z"), vec!["x", "y", "z"]);
}

#[test]
fn add_with_double_space_adds_two() {
    let mut c = fresh();
    match c.parse_commands("add a  b") {
        Reply::Added(rs) => {
            let got: Vec<(u8, String)> =
                rs.into_iter().map(|r| r.unwrap()).map(|t| (t.id, t.name)).collect();
            assert_eq!(got, vec![(1, "a".to_string()), (2, "b".to_string())]);
        }
        _ => panic!("expected an add reply"),
    }
    assert_eq!(c.db().counter(), 2);
}

#[test]
fn tab_separates_arguments() {
    let mut c = fresh();
    c.parse_commands("add\tx");
    assert_eq!(found(&mut c, "get\t1"), Some((1, "x".to_string(), TodoStatus::TODO)));
    assert!(matches!(c.parse_commands("mark 1\tdone"), Reply::Updated(Ok(_))));
}

#[test]
fn trailing_space_keeps_arity() {
    let mut c = fresh();
    c.parse_commands("add x");
    assert_eq!(found(&mut c, "get 1 "), Some((1, "x".to_string(), TodoStatus::TODO)));
}

#[test]
fn blank_line_is_unknown() {
    let mut c = fresh();
    assert!(matches!(c.parse_commands(""), Reply::Rejected(CommandError::Unknown)));
    assert!(matches!(c.parse_commands("   "), Reply::Rejected(CommandError::Unknown)));
    assert_eq!(c.db().len(), 0);
}

#[test]
fn parse_command_builds_commands() {
    assert!(matches!(parse_command("get 5"), Ok(Command::Get(5))));
    assert!(matches!(parse_command("mark 2 todo"), Ok(Command::Mark(2, TodoStatus::TODO))));
    match parse_command("add") {
        Ok(Command::Add(v)) => assert!(v.is_empty()),
        _ => panic!("expected an add"),
    }
}

#[test]
fn decimal_writing() {
    assert_eq!(u8_to_decimal(0), "0");
    assert_eq!(u8_to_decimal(9), "9");
    assert_eq!(u8_to_decimal(10), "10");
    assert_eq!(u8_to_decimal(255), "255");
}
