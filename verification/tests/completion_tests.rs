use shli::completion::{
    complete, prefix_completion, ArbitraryArgument, Argument, Command, CompletionResult,
};

fn demo_grammar() -> Vec<Command> {
    vec![
        Command::new("print"),
        Command::new("echo"),
        Command::new("cat").arg("--help"),
        Command::new("exit"),
    ]
}

#[test]
fn completion_empty_input_lists_all() {
    let cmds = demo_grammar();
    match complete("", &cmds) {
        CompletionResult::PossibilityList(words) => {
            assert_eq!(
                words,
                vec![
                    "print".to_string(),
                    "echo".to_string(),
                    "cat".to_string(),
                    "exit".to_string()
                ]
            );
        }
        _ => panic!("expected a possibility list"),
    }
}

#[test]
fn completion_empty_grammar() {
    let cmds: Vec<Command> = vec![];
    assert!(matches!(complete("", &cmds), CompletionResult::Nothing));
}

#[test]
fn completion_partial_word() {
    let cmds = demo_grammar();
    match complete("ca", &cmds) {
        CompletionResult::PossibilityList(words) => {
            assert_eq!(words, vec!["cat".to_string()]);
        }
        _ => panic!("expected a possibility list"),
    }
}

#[test]
fn completion_after_finished_command() {
    let cmds = demo_grammar();
    match complete("cat ", &cmds) {
        CompletionResult::PossibilityList(words) => {
            assert_eq!(words, vec!["--help".to_string()]);
        }
        _ => panic!("expected a possibility list"),
    }
}

#[test]
fn completion_deterministic() {
    let cmds = demo_grammar();
    let first = match complete("e", &cmds) {
        CompletionResult::PossibilityList(words) => words,
        _ => panic!("expected a possibility list"),
    };
    let second = match complete("e", &cmds) {
        CompletionResult::PossibilityList(words) => words,
        _ => panic!("expected a possibility list"),
    };
    assert_eq!(first, second);
}

#[test]
fn completion_prefix_property() {
    let cmds = demo_grammar();
    match complete("e", &cmds) {
        CompletionResult::PossibilityList(words) => {
            assert_eq!(words, vec!["echo".to_string(), "exit".to_string()]);
            for word in &words {
                assert!(word.starts_with("e"));
            }
        }
        _ => panic!("expected a possibility list"),
    }
}

#[test]
fn completion_unmatched_component() {
    let cmds = demo_grammar();
    match complete("nothere ", &cmds) {
        CompletionResult::PossibilityList(words) => {
            assert_eq!(words, Vec::<String>::new());
        }
        _ => panic!("expected an empty possibility list"),
    }
}

#[test]
fn completion_arbitrary_argument_short_circuit() {
    let track = ArbitraryArgument {
        name: "track".to_string(),
        description: "a track name".to_string(),
    };
    let cmds = vec![
        Command::new("play")
            .arg("--loud")
            .argument(Argument::ArbitraryArgument(track)),
    ];
    match complete("play ", &cmds) {
        CompletionResult::Description(text) => {
            assert_eq!(text, "Various possible".to_string());
        }
        _ => panic!("expected a description, never a possibility list"),
    }
}

#[test]
fn completion_descends_into_subcommands() {
    let cmds = vec![
        Command::new("git").subcommand(Command::new("remote").subcommand(Command::new("add"))),
        Command::new("exit"),
    ];
    match complete("git remote ", &cmds) {
        CompletionResult::PossibilityList(words) => {
            assert_eq!(words, vec!["add".to_string()]);
        }
        _ => panic!("expected a possibility list"),
    }
}

#[test]
fn completion_last_match_wins() {
    let cmds = vec![
        Command::new("twin").arg("--first"),
        Command::new("twin").arg("--second"),
    ];
    match complete("twin ", &cmds) {
        CompletionResult::PossibilityList(words) => {
            assert_eq!(words, vec!["--second".to_string()]);
        }
        _ => panic!("expected a possibility list"),
    }
}

#[test]
fn prefix_completion_basic() {
    let words = prefix_completion("--h", &["--help", "--halt", "--destroy"]);
    assert_eq!(words, vec!["--help".to_string(), "--halt".to_string()]);
}

#[test]
fn prefix_completion_empty_word_matches_all() {
    let words = prefix_completion("", &["print", "echo", "exit"]);
    assert_eq!(
        words,
        vec!["print".to_string(), "echo".to_string(), "exit".to_string()]
    );
}
