//! The interactive line-editing state machine.
//!
//! [`Prompt`] owns the prompt text, the history of submitted lines
//! and the command tree used for tab completion. One interactive
//! read is driven by the embedding application: it decodes one key
//! event at a time, hands it to [`Prompt::handle_key`], and performs
//! the returned [`Effect`] on its terminal. When the outcome is
//! [`KeyOutcome::Submitted`], [`Prompt::submit`] closes the read:
//! it records the line in the history and hands back its words.

use vstd::prelude::*;
use vstd::string::StrSliceExecFns;

use crate::completion::Command;
use crate::completion::CompletionResult;
use crate::completion::CompletionView;
use crate::completion::complete;
use crate::completion::spec_complete;
use crate::split::chars_to_string;
use crate::split::ends_with_whitespace;
use crate::split::spec_is_whitespace;
use crate::split::spec_split;
use crate::split::split;
use crate::split::string_to_chars;

verus! {

/// A decoded key event, as the terminal driver reports it. Enter
/// arrives as `Char('\n')` and Tab as `Char('\t')`; events the
/// editor does not know are handed in as `Other`.
#[derive(Debug, Clone, Copy)]
pub enum Key {
    Char(char),
    Left,
    Right,
    Up,
    Down,
    Backspace,
    Ctrl(char),
    Alt(char),
    Other,
}

/// What the embedding application must draw after a key was
/// handled. The editor never writes to a terminal itself; it
/// reports the rendering work as data.
pub enum Effect {
    /// Nothing visible changed.
    Nothing,
    /// Redraw the prompt, the line and the right part, and place the
    /// cursor back at the split point.
    Redraw,
    /// Move the cursor one column left.
    CursorLeft,
    /// Move the cursor one column right.
    CursorRight,
    /// One character was deleted at the cursor: step left, blank the
    /// column, step left again.
    EraseChar,
    /// Blank `columns` columns from the start of the line, then
    /// redraw; used when the whole line was replaced.
    WipeAndRedraw { columns: usize },
    /// The line shrank at its end: move `back` columns left, write
    /// `blanks` spaces, then redraw.
    EraseTailAndRedraw { back: usize, blanks: usize },
    /// Print the completion hint on a fresh line, then redraw.
    ShowDescription(String),
    /// Print the candidate words on a fresh line, then redraw.
    ShowCompletions(Vec<String>),
}

/// How one key event left the read: still editing (with rendering
/// work), or finished by submission, interrupt or end of input.
pub enum KeyOutcome {
    Edited(Effect),
    Submitted,
    Interrupted,
    EndOfInput,
}

/// The transient state of one read: the text left of the cursor,
/// the text right of it, and how far back the history is being
/// browsed (0 = not browsing). Every read starts from
/// [`EditBuffer::new`].
pub struct EditBuffer {
    pub line: Vec<char>,
    pub right_line: Vec<char>,
    pub history_offset: usize,
}

impl EditBuffer {
    /// An empty buffer, not browsing the history.
    pub fn new() -> (r: EditBuffer)
        ensures
            r.line@.len() == 0,
            r.right_line@.len() == 0,
            r.history_offset == 0,
    {
        EditBuffer { line: Vec::new(), right_line: Vec::new(), history_offset: 0 }
    }

    /// The text left of the cursor.
    pub fn line_text(&self) -> (r: String)
        ensures
            r@ == self.line@,
    {
        chars_to_string(&self.line)
    }

    /// The text right of the cursor.
    pub fn right_text(&self) -> (r: String)
        ensures
            r@ == self.right_line@,
    {
        chars_to_string(&self.right_line)
    }
}

/// The words rejoined into one line, every word followed by a single
/// space; this is the shape in which the editor rebuilds its line
/// after word erasure or an applied completion.
pub open spec fn spec_join_trailing(ws: Seq<Seq<char>>) -> Seq<char>
    decreases ws.len(),
{
    if ws.len() == 0 {
        Seq::empty()
    } else {
        spec_join_trailing(ws.drop_last()) + ws.last() + seq![' ']
    }
}

/// The words of `line` with the in-progress word replaced by `w`: a
/// line ending in whitespace has finished its last word, so `w`
/// starts a fresh one; otherwise the last word is the one being
/// completed and gives way to `w`.
pub open spec fn spec_completed_words(line: Seq<char>, w: Seq<char>) -> Seq<Seq<char>> {
    let words = spec_split(line);
    let kept = if line.len() > 0 && spec_is_whitespace(line.last()) {
        words
    } else if words.len() == 0 {
        words
    } else {
        words.drop_last()
    };
    kept.push(w)
}

/// How applying a completion answer transforms the line: a single
/// candidate replaces the in-progress word and closes it with a
/// space, several candidates are shown, a hint is shown, and nothing
/// to suggest has no visible effect.
pub open spec fn spec_apply_completion(
    cv: CompletionView,
    old_line: Seq<char>,
    new_line: Seq<char>,
    r: KeyOutcome,
) -> bool {
    match cv {
        CompletionView::Nothing => new_line == old_line && r == KeyOutcome::Edited(
            Effect::Nothing,
        ),
        CompletionView::Description(d) => new_line == old_line && (r matches KeyOutcome::Edited(
            Effect::ShowDescription(t),
        ) && t@ == d),
        CompletionView::PossibilityList(ws) => {
            if ws.len() == 1 {
                new_line == spec_join_trailing(spec_completed_words(old_line, ws[0])) && r
                    == KeyOutcome::Edited(Effect::Redraw)
            } else if ws.len() > 1 {
                new_line == old_line && (r matches KeyOutcome::Edited(
                    Effect::ShowCompletions(v),
                ) && v.deep_view() == ws)
            } else {
                new_line == old_line && r == KeyOutcome::Edited(Effect::Nothing)
            }
        },
    }
}

/// How a Tab key transforms the line: the completion of the line
/// against `cmds`, applied as [`spec_apply_completion`] says.
pub open spec fn spec_tab_transition(
    cmds: Seq<Command>,
    old_line: Seq<char>,
    new_line: Seq<char>,
    r: KeyOutcome,
) -> bool {
    spec_apply_completion(spec_complete(old_line, cmds), old_line, new_line, r)
}

/// How the word-erase key transforms the line: the last word is
/// dropped and the rest are rejoined with trailing spaces; the
/// screen columns no longer covered are blanked.
pub open spec fn spec_word_erase_transition(
    old_line: Seq<char>,
    new_line: Seq<char>,
    r: KeyOutcome,
) -> bool {
    let words = spec_split(old_line);
    if words.len() == 0 {
        new_line == old_line && r == KeyOutcome::Edited(Effect::Nothing)
    } else {
        new_line == spec_join_trailing(words.drop_last()) && (if new_line.len()
            < old_line.len() {
            r == KeyOutcome::Edited(
                Effect::EraseTailAndRedraw {
                    back: (old_line.len() - new_line.len()) as usize,
                    blanks: old_line.len() as usize,
                },
            )
        } else {
            r == KeyOutcome::Edited(Effect::Redraw)
        })
    }
}

/// Builds the line in which every word of `words` is followed by one
/// space.
fn rebuild_line(words: &Vec<String>) -> (r: Vec<char>)
    ensures
        r@ == spec_join_trailing(words.deep_view()),
{
    let ghost dv = words.deep_view();
    let mut line: Vec<char> = Vec::new();
    let mut i: usize = 0;
    while i < words.len()
        invariant
            i <= words@.len(),
            dv == words.deep_view(),
            dv.len() == words@.len(),
            forall|k: int| 0 <= k < words@.len() ==> dv[k] == (#[trigger] words@[k])@,
            line@ == spec_join_trailing(dv.take(i as int)),
        decreases words@.len() - i,
    {
        let word: &String = &words[i];
        let mut chars = string_to_chars(word.as_str());
        line.append(&mut chars);
        line.push(' ');
        proof {
            assert(dv.take(i + 1).drop_last() =~= dv.take(i as int));
            assert(dv.take(i + 1).last() == dv[i as int]);
            assert(line@ =~= spec_join_trailing(dv.take(i as int)) + dv[i as int] + seq![' ']);
        }
        i += 1;
    }
    proof {
        assert(dv.take(words@.len() as int) =~= dv);
    }
    line
}

/// Applies a completion answer to the buffer, as a Tab key does: a
/// single candidate replaces the word being typed and closes it with
/// a space; anything else leaves the buffer alone and reports what
/// to show. Offered on its own so an embedder driving completion
/// from a callback instead of a command tree can apply the answer
/// the same way.
pub fn apply_completion(buf: &mut EditBuffer, result: CompletionResult) -> (r: KeyOutcome)
    ensures
        final(buf).right_line == old(buf).right_line,
        final(buf).history_offset == old(buf).history_offset,
        spec_apply_completion(result@, old(buf).line@, final(buf).line@, r),
{
    match result {
        CompletionResult::Nothing => KeyOutcome::Edited(Effect::Nothing),
        CompletionResult::Description(description) => KeyOutcome::Edited(
            Effect::ShowDescription(description),
        ),
        CompletionResult::PossibilityList(possible_words) => {
            if possible_words.len() == 1 {
                // Replace the word being typed by the single
                // candidate and close it with a space.
                let line_str = chars_to_string(&buf.line);
                let mut words = split(line_str.as_str());
                if !ends_with_whitespace(line_str.as_str()) {
                    let ghost words_before = words.deep_view();
                    let _in_progress = words.pop();
                    proof {
                        if words_before.len() > 0 {
                            assert(words.deep_view() =~= words_before.drop_last());
                        } else {
                            assert(words.deep_view() =~= words_before);
                        }
                    }
                }
                let ghost kept = words.deep_view();
                words.push(possible_words[0].clone());
                proof {
                    assert(words.deep_view() =~= kept.push(possible_words@[0]@));
                    assert(words.deep_view() =~= spec_completed_words(
                        buf.line@,
                        possible_words.deep_view()[0],
                    ));
                }
                buf.line = rebuild_line(&words);
                KeyOutcome::Edited(Effect::Redraw)
            } else if possible_words.len() > 0 {
                KeyOutcome::Edited(Effect::ShowCompletions(possible_words))
            } else {
                KeyOutcome::Edited(Effect::Nothing)
            }
        },
    }
}

/// Config struct for building command line interfaces: the prompt
/// text written before the user input, the history of submitted
/// lines (oldest first) and the commands available to tab
/// completion.
pub struct Prompt {
    pub prompt_text: String,
    pub history: Vec<String>,
    pub commands: Vec<Command>,
}

impl Prompt {
    /// Creates a new Prompt instance with an empty history.
    ///
    /// `prompt_text` is the text written before the user input.
    /// `commands` is the list of available commands used by tab
    /// completion.
    pub fn new(prompt_text: String, commands: Vec<Command>) -> (r: Prompt)
        ensures
            r.prompt_text == prompt_text,
            r.history@.len() == 0,
            r.commands == commands,
    {
        Prompt { prompt_text, history: Vec::new(), commands }
    }

    /// Applies the Tab key: asks completion for the line left of the
    /// cursor and either replaces the in-progress word, or reports
    /// what to show.
    fn completion_step(&self, buf: &mut EditBuffer) -> (r: KeyOutcome)
        ensures
            final(buf).right_line == old(buf).right_line,
            final(buf).history_offset == old(buf).history_offset,
            spec_tab_transition(self.commands@, old(buf).line@, final(buf).line@, r),
    {
        let line_str = chars_to_string(&buf.line);
        let result = complete(line_str.as_str(), self.commands.as_slice());
        apply_completion(buf, result)
    }

    /// Drops the last word of the line and rejoins the rest, every
    /// word followed by one space.
    fn word_erase(&self, buf: &mut EditBuffer) -> (r: KeyOutcome)
        ensures
            final(buf).right_line == old(buf).right_line,
            final(buf).history_offset == old(buf).history_offset,
            spec_word_erase_transition(old(buf).line@, final(buf).line@, r),
    {
        let line_str = chars_to_string(&buf.line);
        let mut words = split(line_str.as_str());
        let ghost words_before = words.deep_view();
        if words.pop().is_some() {
            proof {
                assert(words.deep_view() =~= words_before.drop_last());
            }
            let old_len = buf.line.len();
            buf.line = rebuild_line(&words);
            if buf.line.len() < old_len {
                KeyOutcome::Edited(
                    Effect::EraseTailAndRedraw { back: old_len - buf.line.len(), blanks: old_len },
                )
            } else {
                KeyOutcome::Edited(Effect::Redraw)
            }
        } else {
            KeyOutcome::Edited(Effect::Nothing)
        }
    }

    /// Consumes one decoded key event and reports how the read went
    /// on: Enter finishes the line for [`Prompt::submit`], Ctrl+C and
    /// Ctrl+D abort, every other key edits the buffer and names the
    /// rendering work that makes the change visible.
    pub fn handle_key(&self, buf: &mut EditBuffer, key: Key) -> (r: KeyOutcome)
        requires
            old(buf).history_offset <= self.history@.len(),
            self.prompt_text@.len() + old(buf).line@.len() + old(buf).right_line@.len()
                < usize::MAX,
        ensures
            final(buf).history_offset <= self.history@.len(),
            key == Key::Char('\n') ==> r == KeyOutcome::Submitted && *final(buf) == *old(buf),
            key == Key::Ctrl('c') ==> r == KeyOutcome::Interrupted && *final(buf) == *old(buf),
            key == Key::Ctrl('d') ==> r == KeyOutcome::EndOfInput && *final(buf) == *old(buf),
            key == Key::Char('\t') ==> final(buf).right_line == old(buf).right_line && final(buf).history_offset == old(buf).history_offset && spec_tab_transition(
                self.commands@,
                old(buf).line@,
                final(buf).line@,
                r,
            ),
            (key matches Key::Char(c) && c != '\n' && c != '\t') ==> final(buf).line@ == old(buf).line@.push(key->Char_0) && final(buf).right_line == old(buf).right_line && final(buf).history_offset == old(buf).history_offset && r == KeyOutcome::Edited(Effect::Redraw),
            key == Key::Left ==> final(buf).history_offset == old(buf).history_offset && (if old(buf).line@.len() > 0 {
                final(buf).line@ == old(buf).line@.drop_last() && final(buf).right_line@ == seq![
                    old(buf).line@.last(),
                ] + old(buf).right_line@ && r == KeyOutcome::Edited(Effect::CursorLeft)
            } else {
                final(buf).line@ == old(buf).line@ && final(buf).right_line == old(buf).right_line
                    && r == KeyOutcome::Edited(Effect::Nothing)
            }),
            key == Key::Right ==> final(buf).history_offset == old(buf).history_offset && (if old(buf).right_line@.len() > 0 {
                final(buf).line@ == old(buf).line@.push(old(buf).right_line@[0]) && final(buf).right_line@ == old(buf).right_line@.drop_first() && r == KeyOutcome::Edited(
                    Effect::CursorRight,
                )
            } else {
                *final(buf) == *old(buf) && r == KeyOutcome::Edited(Effect::Nothing)
            }),
            key == Key::Up ==> (if old(buf).history_offset < self.history@.len() {
                final(buf).history_offset == old(buf).history_offset + 1 && final(buf).line@
                    == self.history@[self.history@.len() - (old(buf).history_offset + 1)]@ && final(buf).right_line@.len() == 0 && r == KeyOutcome::Edited(
                    Effect::WipeAndRedraw {
                        columns: (self.prompt_text@.len() + old(buf).line@.len() + old(buf).right_line@.len()) as usize,
                    },
                )
            } else {
                *final(buf) == *old(buf) && r == KeyOutcome::Edited(Effect::Nothing)
            }),
            key == Key::Down ==> (if old(buf).history_offset == 0 {
                *final(buf) == *old(buf) && r == KeyOutcome::Edited(Effect::Nothing)
            } else {
                final(buf).history_offset == old(buf).history_offset - 1 && final(buf).right_line@.len() == 0 && (if old(buf).history_offset == 1 {
                    final(buf).line@.len() == 0
                } else {
                    final(buf).line@ == self.history@[self.history@.len() - (old(buf).history_offset - 1)]@
                }) && r == KeyOutcome::Edited(
                    Effect::WipeAndRedraw {
                        columns: (self.prompt_text@.len() + old(buf).line@.len() + old(buf).right_line@.len()) as usize,
                    },
                )
            }),
            key == Key::Backspace ==> final(buf).right_line == old(buf).right_line && final(buf).history_offset == old(buf).history_offset && (if old(buf).line@.len() > 0 {
                final(buf).line@ == old(buf).line@.drop_last() && r == KeyOutcome::Edited(
                    Effect::EraseChar,
                )
            } else {
                final(buf).line@ == old(buf).line@ && r == KeyOutcome::Edited(Effect::Nothing)
            }),
            key == Key::Alt('\u{7f}') ==> final(buf).right_line == old(buf).right_line && final(buf).history_offset == old(buf).history_offset && spec_word_erase_transition(
                old(buf).line@,
                final(buf).line@,
                r,
            ),
            (key matches Key::Ctrl(c) && c != 'c' && c != 'd') ==> *final(buf) == *old(buf) && r
                == KeyOutcome::Edited(Effect::Nothing),
            (key matches Key::Alt(c) && c != '\u{7f}') ==> *final(buf) == *old(buf) && r
                == KeyOutcome::Edited(Effect::Nothing),
            key == Key::Other ==> *final(buf) == *old(buf) && r == KeyOutcome::Edited(
                Effect::Nothing,
            ),
    {
        match key {
            Key::Char('\n') => KeyOutcome::Submitted,
            Key::Char('\t') => self.completion_step(buf),
            Key::Char(ch) => {
                buf.line.push(ch);
                KeyOutcome::Edited(Effect::Redraw)
            },
            Key::Left => {
                if let Some(ch) = buf.line.pop() {
                    buf.right_line.insert(0, ch);
                    proof {
                        let ghost prev = *old(buf);
                        assert(buf.right_line@ =~= seq![prev.line@.last()] + prev.right_line@);
                    }
                    KeyOutcome::Edited(Effect::CursorLeft)
                } else {
                    KeyOutcome::Edited(Effect::Nothing)
                }
            },
            Key::Right => {
                if buf.right_line.len() > 0 {
                    let ch = buf.right_line.remove(0);
                    buf.line.push(ch);
                    proof {
                        assert(buf.right_line@ =~= old(buf).right_line@.drop_first());
                    }
                    KeyOutcome::Edited(Effect::CursorRight)
                } else {
                    KeyOutcome::Edited(Effect::Nothing)
                }
            },
            Key::Up => {
                if buf.history_offset < self.history.len() {
                    let columns = self.prompt_text.unicode_len() + buf.line.len()
                        + buf.right_line.len();
                    buf.history_offset = buf.history_offset + 1;
                    let entry: &String = &self.history[self.history.len() - buf.history_offset];
                    buf.line = string_to_chars(entry.as_str());
                    buf.right_line = Vec::new();
                    KeyOutcome::Edited(Effect::WipeAndRedraw { columns })
                } else {
                    KeyOutcome::Edited(Effect::Nothing)
                }
            },
            Key::Down => {
                if buf.history_offset == 1 {
                    let columns = self.prompt_text.unicode_len() + buf.line.len()
                        + buf.right_line.len();
                    buf.history_offset = 0;
                    buf.line = Vec::new();
                    buf.right_line = Vec::new();
                    KeyOutcome::Edited(Effect::WipeAndRedraw { columns })
                } else if buf.history_offset > 1 {
                    let columns = self.prompt_text.unicode_len() + buf.line.len()
                        + buf.right_line.len();
                    buf.history_offset = buf.history_offset - 1;
                    let entry: &String = &self.history[self.history.len() - buf.history_offset];
                    buf.line = string_to_chars(entry.as_str());
                    buf.right_line = Vec::new();
                    KeyOutcome::Edited(Effect::WipeAndRedraw { columns })
                } else {
                    KeyOutcome::Edited(Effect::Nothing)
                }
            },
            Key::Ctrl('c') => KeyOutcome::Interrupted,
            Key::Ctrl('d') => KeyOutcome::EndOfInput,
            Key::Backspace => {
                if let Some(_popped) = buf.line.pop() {
                    KeyOutcome::Edited(Effect::EraseChar)
                } else {
                    KeyOutcome::Edited(Effect::Nothing)
                }
            },
            Key::Alt('\u{7f}') => self.word_erase(buf),
            _ => KeyOutcome::Edited(Effect::Nothing),
        }
    }

    /// Closes one read after Enter: the two buffer halves are joined
    /// into the final line, a non-empty line is appended to the
    /// history (no de-duplication, no trimming), an empty one is
    /// not, and the line's words are handed back.
    pub fn submit(&mut self, buf: EditBuffer) -> (r: Vec<String>)
        ensures
            final(self).prompt_text == old(self).prompt_text,
            final(self).commands == old(self).commands,
            buf.line@.len() + buf.right_line@.len() == 0 ==> final(self).history == old(self).history,
            buf.line@.len() + buf.right_line@.len() > 0 ==> final(self).history.deep_view() == old(self).history.deep_view().push(buf.line@ + buf.right_line@),
            r.deep_view() == spec_split(buf.line@ + buf.right_line@),
    {
        let mut full = buf.line;
        let mut right = buf.right_line;
        full.append(&mut right);
        let line = chars_to_string(&full);
        if full.len() > 0 {
            let ghost hist = self.history.deep_view();
            self.history.push(line.clone());
            proof {
                assert(self.history.deep_view() =~= hist.push(buf.line@ + buf.right_line@));
            }
        }
        split(line.as_str())
    }
}

} // verus!
