use flow::engine::{refused_outcome, MoveOutcome};
use flow::model::Board;
use flow::provider::{choose_board_root, choose_provider, BoardRoot, ProviderKind};
use flow::store::{
    board_entries, card_file_name, lines_of, list_columns, order_ids, order_with, order_without,
    parse_col, parse_md,
};

fn s(v: &str) -> String {
    v.to_string()
}

#[test]
fn lines_split_like_str_lines() {
    assert_eq!(lines_of("a\nb\r\n\nc"), vec!["a", "b", "", "c"]);
    assert_eq!(lines_of("a\n"), vec!["a"]);
    assert_eq!(lines_of("x\r"), vec!["x\r"]);
    assert!(lines_of("").is_empty());
    assert_eq!(lines_of("\n"), vec![""]);
}

#[test]
fn parse_col_splits_id_and_quoted_title() {
    assert_eq!(parse_col("todo \"TO DO\""), (s("todo"), s("TO DO")));
    assert_eq!(parse_col("done"), (s("done"), s("done")));
    assert_eq!(parse_col("wip   In work  "), (s("wip"), s("In work")));
}

#[test]
fn board_entries_reads_column_lines() {
    let txt = "col todo \"TO DO\"\n  col done \"DONE\"\n\n# note\ncolumn x\n";
    assert_eq!(
        board_entries(txt),
        vec![(s("todo"), s("TO DO")), (s("done"), s("DONE"))]
    );
}

#[test]
fn parse_md_title_and_body() {
    assert_eq!(parse_md("# Title\n\nBody\n", "A-1"), (s("Title"), s("Body")));
    assert_eq!(parse_md("Plain\r\nmore", "A-1"), (s("Plain"), s("more")));
    assert_eq!(parse_md("#  \nbody", "A-1"), (s("A-1"), s("body")));
    assert_eq!(parse_md("", "A-1"), (s("A-1"), s("")));
}

#[test]
fn order_ids_skip_blank_lines() {
    assert_eq!(order_ids(" A-1 \n\nB-2\n"), vec!["A-1", "B-2"]);
    assert!(order_ids("").is_empty());
}

#[test]
fn order_without_drops_the_id() {
    assert_eq!(order_without("A-1\nB-2\nA-1\n", "A-1"), "B-2\n");
    assert_eq!(order_without("A-1\n", "A-1"), "\n");
}

#[test]
fn order_with_appends_once() {
    assert_eq!(order_with("A-1\n", "B-2"), "A-1\nB-2\n");
    assert_eq!(order_with("A-1\nB-2\n", "A-1"), "A-1\nB-2\n");
    assert_eq!(order_with("", "A-1"), "A-1\n");
}

#[test]
fn list_columns_takes_first_word() {
    let txt = "col todo \"TO DO\"\ncol\tdone\ncol  wip\tx\nrow a\n";
    assert_eq!(list_columns(txt), vec!["todo", "wip"]);
}

#[test]
fn card_file_names() {
    assert_eq!(card_file_name("A-1"), "A-1.md");
}

#[test]
fn refused_move_reports_resync_or_message() {
    match refused_outcome(s("not found: A-1"), Some(Board { columns: vec![] })) {
        MoveOutcome::Resynced(b) => assert!(b.columns.is_empty()),
        _ => panic!("expected a resync"),
    }
    match refused_outcome(s("not found: A-1"), None) {
        MoveOutcome::Rejected(m) => assert_eq!(m, "not found: A-1"),
        _ => panic!("expected a rejection"),
    }
}

#[test]
fn provider_and_root_choice() {
    assert!(matches!(choose_provider(Some(s("jira"))), ProviderKind::Jira));
    assert!(matches!(choose_provider(Some(s("local"))), ProviderKind::Local));
    assert!(matches!(choose_provider(None), ProviderKind::Local));

    match choose_board_root(Some(s("/b")), Some(s("local")), Some(s("/l")), Some(s("/h"))) {
        BoardRoot::Path(p) => assert_eq!(p, "/b"),
        _ => panic!("expected the board path"),
    }
    match choose_board_root(None, Some(s("local")), Some(s("/l")), Some(s("/h"))) {
        BoardRoot::Path(p) => assert_eq!(p, "/l"),
        _ => panic!("expected the local path"),
    }
    match choose_board_root(None, Some(s("local")), None, Some(s("/h"))) {
        BoardRoot::Home(h) => assert_eq!(h, "/h"),
        _ => panic!("expected the home directory"),
    }
    assert!(matches!(
        choose_board_root(None, None, Some(s("/l")), Some(s("/h"))),
        BoardRoot::Demo
    ));
}
