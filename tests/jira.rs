use flow::jira::{
    assemble_board, board_config_map, pick_transition_by_names, pick_transition_for_column,
    search_jql,
    transition_for_move, BoardColumn, BoardConfigResponse, BoardFilter, ColumnConfig, IdOnly,
    JiraIssue, JiraSettings, Status, Transition,
};
use flow::provider::ProviderError;

fn id_only(id: &str) -> IdOnly {
    IdOnly { id: id.to_string() }
}

fn transition(id: &str, status_id: &str, name: &str) -> Transition {
    Transition {
        id: id.to_string(),
        to: Status {
            id: status_id.to_string(),
            name: name.to_string(),
        },
    }
}

fn config(columns: Vec<(&str, Vec<&str>)>) -> BoardConfigResponse {
    BoardConfigResponse {
        column_config: ColumnConfig {
            columns: columns
                .into_iter()
                .map(|(name, ids)| BoardColumn {
                    name: name.to_string(),
                    statuses: ids.into_iter().map(id_only).collect(),
                })
                .collect(),
        },
        filter: BoardFilter {
            id: "123".to_string(),
        },
    }
}

fn issue(key: &str, status_id: &str, status_name: &str) -> JiraIssue {
    JiraIssue {
        key: key.to_string(),
        summary: format!("summary {key}"),
        description: String::new(),
        status_id: status_id.to_string(),
        status_name: status_name.to_string(),
    }
}

#[test]
fn column_order_from_config_preserves_board_order() {
    let cfg = BoardConfigResponse {
        column_config: ColumnConfig {
            columns: vec![
                BoardColumn {
                    name: "To Do".to_string(),
                    statuses: vec![IdOnly {
                        id: "1".to_string(),
                    }],
                },
                BoardColumn {
                    name: "In Progress".to_string(),
                    statuses: vec![
                        IdOnly {
                            id: "3".to_string(),
                        },
                        IdOnly {
                            id: "4".to_string(),
                        },
                    ],
                },
            ],
        },
        filter: BoardFilter {
            id: "123".to_string(),
        },
    };

    let map = board_config_map(&cfg);
    assert_eq!(map.order, vec!["To Do", "In Progress"]);
    assert_eq!(*map.column_to_status("To Do").unwrap(), vec!["1"]);
    assert_eq!(*map.column_to_status("In Progress").unwrap(), vec!["3", "4"]);
}

#[test]
fn pick_transition_prefers_open_for_todo() {
    let transitions = vec![
        Transition {
            id: "2".to_string(),
            to: Status {
                id: "2".to_string(),
                name: "Selected for Development".to_string(),
            },
        },
        Transition {
            id: "1".to_string(),
            to: Status {
                id: "1".to_string(),
                name: "Open".to_string(),
            },
        },
    ];

    let status_ids = vec!["1".to_string(), "2".to_string()];
    let t = pick_transition_for_column(&transitions, "To Do", &status_ids).unwrap();

    assert_eq!(t.to.name, "Open");
}

#[test]
fn load_board_returns_parse_error_when_missing_env() {
    let settings = JiraSettings::from_parts(None, None, None, None);
    let err = match settings.board_to_load() {
        Ok(_) => panic!("expected load_board to fail"),
        Err(e) => e,
    };

    assert!(matches!(err, ProviderError::Parse { .. }));
}

#[test]
fn config_map_merges_repeated_columns_and_statuses() {
    let cfg = config(vec![
        ("Done", vec!["5", "6"]),
        ("Review", vec!["7"]),
        ("Done", vec!["6", "8"]),
    ]);
    let map = board_config_map(&cfg);
    assert_eq!(map.order, vec!["Done", "Review"]);
    assert_eq!(*map.column_to_status("Done").unwrap(), vec!["5", "6", "8"]);
    assert_eq!(*map.column_to_status("Review").unwrap(), vec!["7"]);
    assert!(map.column_to_status("Nope").is_none());
}

#[test]
fn config_map_of_empty_config_is_empty() {
    let map = board_config_map(&config(vec![]));
    assert!(map.order.is_empty());
    assert!(map.statuses.is_empty());
}

#[test]
fn pick_transition_falls_back_to_first_in_column() {
    let transitions = vec![
        transition("10", "9", "Elsewhere"),
        transition("11", "2", "Selected"),
        transition("12", "1", "Waiting"),
    ];
    let ids = vec!["1".to_string(), "2".to_string()];
    let t = pick_transition_for_column(&transitions, "Done", &ids).unwrap();
    assert_eq!(t.id, "11");
}

#[test]
fn pick_transition_matches_preference_case_insensitively() {
    let transitions = vec![
        transition("1", "1", "Blocked"),
        transition("2", "2", "QA Testing"),
    ];
    let ids = vec!["1".to_string(), "2".to_string()];
    let t = pick_transition_for_column(&transitions, "QA", &ids).unwrap();
    assert_eq!(t.id, "2");
}

#[test]
fn pick_transition_none_when_nothing_leads_into_column() {
    let transitions = vec![transition("1", "1", "Open")];
    let ids = vec!["2".to_string()];
    assert!(pick_transition_for_column(&transitions, "To Do", &ids).is_none());
}

#[test]
fn move_uses_configured_column_first() {
    let map = board_config_map(&config(vec![("Done", vec!["5"])]));
    let transitions = vec![transition("31", "4", "Done"), transition("32", "5", "Closed")];
    let id = transition_for_move(&transitions, "Done", Some(&map)).ok().unwrap();
    assert_eq!(id, "32");
}

#[test]
fn move_falls_back_to_status_name() {
    let map = board_config_map(&config(vec![("Done", vec!["5"])]));
    let transitions = vec![transition("31", "4", "Other"), transition("33", "7", "Blocked")];
    let id = transition_for_move(&transitions, "Blocked", Some(&map)).ok().unwrap();
    assert_eq!(id, "33");
    let id = transition_for_move(&transitions, "Blocked", None).ok().unwrap();
    assert_eq!(id, "33");
}

#[test]
fn move_to_unknown_column_is_not_found() {
    let transitions = vec![transition("31", "4", "Other")];
    match transition_for_move(&transitions, "Done", None) {
        Err(ProviderError::NotFound { id }) => assert_eq!(id, "Done"),
        _ => panic!("expected NotFound"),
    }
}

#[test]
fn assemble_board_orders_configured_then_new_columns() {
    let map = board_config_map(&config(vec![
        ("To Do", vec!["1"]),
        ("In Progress", vec!["3"]),
        ("Done", vec!["5"]),
    ]));
    let issues = vec![
        issue("P-1", "3", "In Dev"),
        issue("P-2", "9", "Blocked"),
        issue("P-3", "1", "Open"),
        issue("P-4", "3", "In Dev"),
        issue("P-5", "9", "Blocked"),
    ];
    let board = assemble_board(&map, &issues);
    let names: Vec<&str> = board.columns.iter().map(|c| c.id.as_str()).collect();
    assert_eq!(names, vec!["To Do", "In Progress", "Done", "Blocked"]);
    assert_eq!(board.columns[3].title, "Blocked");
    let keys = |i: usize| -> Vec<String> {
        board.columns[i].cards.iter().map(|c| c.id.clone()).collect()
    };
    assert_eq!(keys(0), vec!["P-3"]);
    assert_eq!(keys(1), vec!["P-1", "P-4"]);
    assert!(keys(2).is_empty());
    assert_eq!(keys(3), vec!["P-2", "P-5"]);
    assert_eq!(board.columns[1].cards[0].title, "summary P-1");
}

#[test]
fn settings_trim_and_report_missing() {
    let s = JiraSettings::from_parts(
        Some("https://example.test//".to_string()),
        Some("  ".to_string()),
        None,
        Some("  42 ".to_string()),
    );
    assert_eq!(s.base_url, "https://example.test");
    assert_eq!(s.email, "");
    assert_eq!(s.board_id.as_deref(), Some("42"));
    assert_eq!(s.err.as_deref(), Some("missing JIRA_EMAIL, JIRA_API_TOKEN"));
    match s.check() {
        Err(ProviderError::Parse { msg }) => {
            assert_eq!(msg, "jira misconfigured: missing JIRA_EMAIL, JIRA_API_TOKEN")
        }
        _ => panic!("expected a parse error"),
    }
}

#[test]
fn complete_settings_build_addresses() {
    let s = JiraSettings::from_parts(
        Some("https://example.test/".to_string()),
        Some("me@example.test".to_string()),
        Some("api-token".to_string()),
        Some("7".to_string()),
    );
    assert!(s.err.is_none());
    assert!(s.check().is_ok());
    assert_eq!(s.board_to_load().ok(), Some("7".to_string()));
    assert_eq!(
        s.transitions_url("P-1"),
        "https://example.test/rest/api/3/issue/P-1/transitions"
    );
    assert_eq!(
        s.board_config_url("7"),
        "https://example.test/rest/agile/1.0/board/7/configuration"
    );
    assert_eq!(s.search_url(), "https://example.test/rest/api/3/search/jql");
    assert_eq!(
        search_jql("123"),
        "filter=123 AND assignee = currentUser() AND sprint in openSprints()"
    );
}

#[test]
fn pick_by_lowered_names_uses_given_names() {
    let transitions = vec![
        transition("1", "1", "Whatever"),
        transition("2", "2", "Anything"),
        transition("3", "3", "Else"),
    ];
    let names = vec!["blocked".to_string(), "reopened".to_string(), "in review".to_string()];
    let ids = vec!["1".to_string(), "2".to_string(), "3".to_string()];
    assert_eq!(pick_transition_by_names(&transitions, &names, "code review", &ids), Some(2));
    assert_eq!(pick_transition_by_names(&transitions, &names, "to do", &ids), Some(1));
    assert_eq!(pick_transition_by_names(&transitions, &names, "done", &ids), Some(0));
    assert_eq!(pick_transition_by_names(&transitions, &names, "To Do", &ids[1..]), Some(1));
    assert_eq!(pick_transition_by_names(&transitions, &names, "todo", &ids[..0]), None);
}
