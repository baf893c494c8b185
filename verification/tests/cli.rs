use niri::cli::{actions_from_lexed, split_actions, ActionWords, ActionsError};

fn words(actions: &[ActionWords]) -> Vec<Vec<String>> {
    actions.iter().map(|a| a.words.clone()).collect()
}

#[test]
fn args_and_stdin_produce_the_same_actions() {
    let args = vec![
        String::from("toggle-workspace-visibility stash"),
        String::from("focus-workspace stash"),
    ];
    let from_args = split_actions(&args, "").unwrap();

    let stdin = "toggle-workspace-visibility stash\nfocus-workspace stash\n";
    let from_stdin = split_actions(&[], stdin).unwrap();

    assert_eq!(from_args.len(), 2);
    assert_eq!(words(&from_args), words(&from_stdin));
}

#[test]
fn blank_stdin_lines_are_skipped() {
    let stdin = "focus-column-right\n\n   \nclose-window\n";
    let actions = split_actions(&[], stdin).unwrap();
    assert_eq!(actions.len(), 2);
    assert_eq!(actions[0].label, "stdin line 1");
    assert_eq!(actions[1].label, "stdin line 4");
}

#[test]
fn quoted_arguments_survive_lexing() {
    let args = vec![String::from(r#"spawn -- sh -c "echo hello world""#)];
    let actions = split_actions(&args, "").unwrap();
    assert_eq!(actions[0].words, ["spawn", "--", "sh", "-c", "echo hello world"]);
}

#[test]
fn labels_name_argument_positions() {
    let args = vec![
        String::from("focus-column-right"),
        String::from("not-a-real-action"),
    ];
    let actions = split_actions(&args, "").unwrap();
    assert_eq!(actions[1].label, "argument 2");
    assert!(actions[1].label.contains('2'));
}

#[test]
fn no_args_and_no_stdin_is_an_error() {
    assert_eq!(split_actions(&[], ""), Err(ActionsError::NoActions));
    assert_eq!(split_actions(&[], "  \n\t\n"), Err(ActionsError::NoActions));
}

#[test]
fn unbalanced_quotes_name_their_source() {
    let args = vec![String::from("close-window"), String::from("spawn \"oops")];
    assert_eq!(
        split_actions(&args, ""),
        Err(ActionsError::UnbalancedQuotes {
            label: String::from("argument 2"),
            text: String::from("spawn \"oops"),
        })
    );
}

#[test]
fn an_action_of_only_quotes_is_empty() {
    // A line that lexes to no words at all: only a comment.
    let err = split_actions(&[], "close-window\n# nothing here\n");
    assert_eq!(
        err,
        Err(ActionsError::EmptyAction {
            label: String::from("stdin line 2"),
        })
    );
}

#[test]
fn crlf_line_endings_are_stripped() {
    let actions = split_actions(&[], "focus-workspace stash\r\nclose-window").unwrap();
    assert_eq!(words(&actions), [vec!["focus-workspace", "stash"], vec!["close-window"]]);
}

fn strs(v: &[&str]) -> Vec<String> {
    v.iter().map(|s| String::from(*s)).collect()
}

#[test]
fn blank_lines_anywhere_in_stdin_change_nothing() {
    let stdin = split_actions(&[], "focus-column-right\n\n   \nclose-window\n").unwrap();
    assert_eq!(stdin.len(), 2);
    let args = split_actions(&strs(&["focus-column-right", "close-window"]), "ignored").unwrap();
    assert_eq!(words(&stdin), words(&args));
}

#[test]
fn lexed_sources_give_their_words_or_the_first_error() {
    let ok = actions_from_lexed(vec![
        (String::from("argument 1"), String::from("a b"), Some(strs(&["a", "b"]))),
        (String::from("argument 2"), String::from("c"), Some(strs(&["c"]))),
    ])
    .unwrap();
    assert_eq!(ok[1].label, "argument 2");
    assert_eq!(ok[0].words, strs(&["a", "b"]));

    let err = actions_from_lexed(vec![
        (String::from("stdin line 1"), String::from("a"), Some(strs(&["a"]))),
        (String::from("stdin line 3"), String::from("\"b"), None),
        (String::from("stdin line 4"), String::from("''"), Some(Vec::new())),
    ]);
    assert_eq!(
        err.unwrap_err(),
        ActionsError::UnbalancedQuotes {
            label: String::from("stdin line 3"),
            text: String::from("\"b")
        }
    );

    let empty = actions_from_lexed(vec![(String::from("argument 1"), String::from("''"), Some(Vec::new()))]);
    assert_eq!(empty.unwrap_err(), ActionsError::EmptyAction { label: String::from("argument 1") });
    assert_eq!(actions_from_lexed(Vec::new()).unwrap_err(), ActionsError::NoActions);
}

#[test]
fn stdin_without_final_newline_and_with_crlf_blank_lines_agrees() {
    let stdin = split_actions(&[], "focus-column-right\r\n \t\r\n\r\nclose-window").unwrap();
    let args = split_actions(&strs(&["focus-column-right", "close-window"]), "").unwrap();
    assert_eq!(words(&stdin), words(&args));
}
