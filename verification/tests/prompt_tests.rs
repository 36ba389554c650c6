use shli::completion::{Command, CompletionResult};
use shli::prompt::{apply_completion, EditBuffer, Effect, Key, KeyOutcome, Prompt};
use shli::Error;

fn demo_prompt() -> Prompt {
    Prompt::new(
        "> ".to_string(),
        vec![
            Command::new("print"),
            Command::new("echo"),
            Command::new("cat").arg("--help"),
            Command::new("exit"),
        ],
    )
}

fn type_line(p: &Prompt, buf: &mut EditBuffer, text: &str) {
    for ch in text.chars() {
        let _ = p.handle_key(buf, Key::Char(ch));
    }
}

fn read_line(p: &mut Prompt, text: &str) -> Vec<String> {
    let mut buf = EditBuffer::new();
    type_line(p, &mut buf, text);
    assert!(matches!(
        p.handle_key(&mut buf, Key::Char('\n')),
        KeyOutcome::Submitted
    ));
    p.submit(buf)
}

#[test]
fn submit_tokenizes_the_line() {
    let mut p = demo_prompt();
    let words = read_line(&mut p, "print out \"example command\"");
    assert_eq!(
        words,
        vec![
            "print".to_string(),
            "out".to_string(),
            "example command".to_string()
        ]
    );
    assert_eq!(p.history, vec!["print out \"example command\"".to_string()]);
}

#[test]
fn empty_submit_keeps_history() {
    let mut p = demo_prompt();
    let _ = read_line(&mut p, "print a");
    assert_eq!(p.history.len(), 1);
    let words = read_line(&mut p, "");
    assert_eq!(words, Vec::<String>::new());
    assert_eq!(p.history, vec!["print a".to_string()]);
}

#[test]
fn history_navigation() {
    let mut p = demo_prompt();
    let _ = read_line(&mut p, "print a");
    let _ = read_line(&mut p, "echo b");

    let mut buf = EditBuffer::new();
    let _ = p.handle_key(&mut buf, Key::Up);
    assert_eq!(buf.line_text(), "echo b");
    let _ = p.handle_key(&mut buf, Key::Up);
    assert_eq!(buf.line_text(), "print a");
    // A further Up is bounded by the history length.
    let _ = p.handle_key(&mut buf, Key::Up);
    assert_eq!(buf.line_text(), "print a");
    // Down steps back towards the most recent entry.
    let _ = p.handle_key(&mut buf, Key::Down);
    assert_eq!(buf.line_text(), "echo b");
    // Down at offset one restores an empty line.
    let _ = p.handle_key(&mut buf, Key::Down);
    assert_eq!(buf.line_text(), "");
    assert_eq!(buf.history_offset, 0);
}

#[test]
fn history_replacement_clears_right_part() {
    let mut p = demo_prompt();
    let _ = read_line(&mut p, "echo b");
    let mut buf = EditBuffer::new();
    type_line(&p, &mut buf, "xy");
    let _ = p.handle_key(&mut buf, Key::Left);
    assert_eq!(buf.right_text(), "y");
    match p.handle_key(&mut buf, Key::Up) {
        KeyOutcome::Edited(Effect::WipeAndRedraw { columns }) => {
            // Prompt "> " plus old "x" left part plus old "y" right part.
            assert_eq!(columns, 4);
        }
        _ => panic!("expected a wipe-and-redraw effect"),
    }
    assert_eq!(buf.line_text(), "echo b");
    assert_eq!(buf.right_text(), "");
}

#[test]
fn cursor_movement() {
    let p = demo_prompt();
    let mut buf = EditBuffer::new();
    type_line(&p, &mut buf, "ab");
    assert!(matches!(
        p.handle_key(&mut buf, Key::Left),
        KeyOutcome::Edited(Effect::CursorLeft)
    ));
    assert_eq!(buf.line_text(), "a");
    assert_eq!(buf.right_text(), "b");
    assert!(matches!(
        p.handle_key(&mut buf, Key::Right),
        KeyOutcome::Edited(Effect::CursorRight)
    ));
    assert_eq!(buf.line_text(), "ab");
    assert_eq!(buf.right_text(), "");
    // At the edges the cursor stays put.
    assert!(matches!(
        p.handle_key(&mut buf, Key::Right),
        KeyOutcome::Edited(Effect::Nothing)
    ));
}

#[test]
fn backspace_deletes_one_character() {
    let p = demo_prompt();
    let mut buf = EditBuffer::new();
    type_line(&p, &mut buf, "ab");
    assert!(matches!(
        p.handle_key(&mut buf, Key::Backspace),
        KeyOutcome::Edited(Effect::EraseChar)
    ));
    assert_eq!(buf.line_text(), "a");
    let _ = p.handle_key(&mut buf, Key::Backspace);
    assert_eq!(buf.line_text(), "");
    assert!(matches!(
        p.handle_key(&mut buf, Key::Backspace),
        KeyOutcome::Edited(Effect::Nothing)
    ));
}

#[test]
fn word_erase_drops_last_word() {
    let p = demo_prompt();
    let mut buf = EditBuffer::new();
    type_line(&p, &mut buf, "print out x");
    match p.handle_key(&mut buf, Key::Alt('\u{7f}')) {
        KeyOutcome::Edited(Effect::EraseTailAndRedraw { back, blanks }) => {
            assert_eq!(back, 1);
            assert_eq!(blanks, 11);
        }
        _ => panic!("expected an erase-tail effect"),
    }
    assert_eq!(buf.line_text(), "print out ");
    let _ = p.handle_key(&mut buf, Key::Alt('\u{7f}'));
    assert_eq!(buf.line_text(), "print ");
}

#[test]
fn tab_autocompletes_single_match() {
    let p = demo_prompt();
    let mut buf = EditBuffer::new();
    type_line(&p, &mut buf, "ca");
    assert!(matches!(
        p.handle_key(&mut buf, Key::Char('\t')),
        KeyOutcome::Edited(Effect::Redraw)
    ));
    assert_eq!(buf.line_text(), "cat ");
}

#[test]
fn tab_completes_single_flag() {
    let p = demo_prompt();
    let mut buf = EditBuffer::new();
    type_line(&p, &mut buf, "cat ");
    // The resolver answers with the single flag, so the editor
    // applies it in place.
    assert!(matches!(
        p.handle_key(&mut buf, Key::Char('\t')),
        KeyOutcome::Edited(Effect::Redraw)
    ));
    assert_eq!(buf.line_text(), "cat --help ");
}

#[test]
fn tab_lists_candidates() {
    let p = Prompt::new(
        "> ".to_string(),
        vec![Command::new("cat").arg("--help").arg("--number")],
    );
    let mut buf = EditBuffer::new();
    type_line(&p, &mut buf, "cat ");
    match p.handle_key(&mut buf, Key::Char('\t')) {
        KeyOutcome::Edited(Effect::ShowCompletions(words)) => {
            assert_eq!(words, vec!["--help".to_string(), "--number".to_string()]);
        }
        _ => panic!("expected the candidates to be shown"),
    }
    assert_eq!(buf.line_text(), "cat ");
}

#[test]
fn tab_on_empty_line_lists_commands() {
    let p = demo_prompt();
    let mut buf = EditBuffer::new();
    match p.handle_key(&mut buf, Key::Char('\t')) {
        KeyOutcome::Edited(Effect::ShowCompletions(words)) => {
            assert_eq!(
                words,
                vec![
                    "print".to_string(),
                    "echo".to_string(),
                    "cat".to_string(),
                    "exit".to_string()
                ]
            );
        }
        _ => panic!("expected the command names to be shown"),
    }
}

#[test]
fn apply_completion_replaces_in_progress_word() {
    let p = demo_prompt();
    let mut buf = EditBuffer::new();
    type_line(&p, &mut buf, "ca");
    let outcome = apply_completion(
        &mut buf,
        CompletionResult::PossibilityList(vec!["cat".to_string()]),
    );
    assert!(matches!(outcome, KeyOutcome::Edited(Effect::Redraw)));
    assert_eq!(buf.line_text(), "cat ");
}

#[test]
fn control_keys_abort() {
    let p = demo_prompt();
    let mut buf = EditBuffer::new();
    assert!(matches!(
        p.handle_key(&mut buf, Key::Ctrl('c')),
        KeyOutcome::Interrupted
    ));
    assert!(matches!(
        p.handle_key(&mut buf, Key::Ctrl('d')),
        KeyOutcome::EndOfInput
    ));
    assert!(matches!(
        p.handle_key(&mut buf, Key::Ctrl('x')),
        KeyOutcome::Edited(Effect::Nothing)
    ));
    assert!(matches!(
        p.handle_key(&mut buf, Key::Other),
        KeyOutcome::Edited(Effect::Nothing)
    ));
}

#[test]
fn io_error_converts() {
    let e = std::io::Error::new(std::io::ErrorKind::UnexpectedEof, "closed");
    assert!(matches!(Error::from(e), Error::IoError(_)));
}
