//! Escape-aware tokenizing of command lines.
//!
//! A command line is cut into argument words at unescaped whitespace.
//! Three escaping mechanisms protect whitespace: single quotes, double
//! quotes and a one-character backslash escape. [`EscapingState`] is
//! the scanner's state machine, usable incrementally; [`split`] runs
//! it over a whole line.

use vstd::prelude::*;
use vstd::string::StrSliceExecFns;

verus! {

/// Whether `c` has the Unicode `White_Space` property, the set of
/// characters `char::is_whitespace` accepts.
pub open spec fn spec_is_whitespace(c: char) -> bool {
    ||| c == '\u{0009}'
    ||| c == '\u{000A}'
    ||| c == '\u{000B}'
    ||| c == '\u{000C}'
    ||| c == '\u{000D}'
    ||| c == '\u{0020}'
    ||| c == '\u{0085}'
    ||| c == '\u{00A0}'
    ||| c == '\u{1680}'
    ||| ('\u{2000}' <= c && c <= '\u{200A}')
    ||| c == '\u{2028}'
    ||| c == '\u{2029}'
    ||| c == '\u{202F}'
    ||| c == '\u{205F}'
    ||| c == '\u{3000}'
}

/// Runtime test for [`spec_is_whitespace`].
pub fn is_whitespace(c: char) -> (r: bool)
    ensures
        r == spec_is_whitespace(c),
{
    let u = c as u32;
    (0x09 <= u && u <= 0x0D) || u == 0x20 || u == 0x85 || u == 0xA0 || u == 0x1680 || (0x2000 <= u
        && u <= 0x200A) || u == 0x2028 || u == 0x2029 || u == 0x202F || u == 0x205F || u == 0x3000
}

/// Scanner state for escaping within command line strings.
///
/// Exactly one escaping mechanism can hold the scanner at a time from
/// the tokenizer's point of view, but the three flags are tracked
/// independently; `backslash` is a transient flag that is consumed by
/// the very next character.
#[derive(Debug, Clone, Copy)]
pub struct EscapingState {
    /// A single quote is active.
    pub single_quote: bool,
    /// A double quote is active.
    pub double_quote: bool,
    /// A backslash is active.
    pub backslash: bool,
}

impl EscapingState {
    /// The state before any character was processed: nothing escaped.
    pub open spec fn spec_init() -> EscapingState {
        EscapingState { single_quote: false, double_quote: false, backslash: false }
    }

    /// A following whitespace character would not separate words.
    pub open spec fn spec_whitespace_escaped(self) -> bool {
        self.single_quote || self.double_quote || self.backslash
    }

    /// A following `"` would be an ordinary character.
    pub open spec fn spec_doublequote_escaped(self) -> bool {
        self.single_quote || self.backslash
    }

    /// A following `'` would be an ordinary character.
    pub open spec fn spec_singlequote_escaped(self) -> bool {
        self.double_quote || self.backslash
    }

    /// A following `\` would be an ordinary character.
    pub open spec fn spec_backslash_escaped(self) -> bool {
        self.double_quote || self.backslash
    }

    /// The state after processing one character `c` in state `self`:
    /// an unescaped quote toggles its region, an unescaped backslash
    /// arms the one-character escape, and an armed backslash is
    /// cleared by whatever character follows it.
    pub open spec fn spec_step(self, c: char) -> EscapingState {
        EscapingState {
            single_quote: if c == '\'' && !self.spec_singlequote_escaped() {
                !self.single_quote
            } else {
                self.single_quote
            },
            double_quote: if c == '"' && !self.spec_doublequote_escaped() {
                !self.double_quote
            } else {
                self.double_quote
            },
            backslash: if self.backslash {
                false
            } else {
                c == '\\'
            },
        }
    }

    /// The state after processing all of `s`, character by character,
    /// starting from [`EscapingState::spec_init`].
    pub open spec fn spec_process(s: Seq<char>) -> EscapingState
        decreases s.len(),
    {
        if s.len() == 0 {
            EscapingState::spec_init()
        } else {
            EscapingState::spec_process(s.drop_last()).spec_step(s.last())
        }
    }

    pub fn new() -> (r: EscapingState)
        ensures
            r == EscapingState::spec_init(),
    {
        EscapingState { single_quote: false, double_quote: false, backslash: false }
    }

    /// Call this function to proceed on the input string.
    pub fn step(&mut self, ch: char)
        ensures
            *final(self) == old(self).spec_step(ch),
    {
        match ch {
            '"' => {
                if !self.doublequote_escaped() {
                    self.double_quote = !self.double_quote
                }
            },
            '\'' => {
                if !self.singlequote_escaped() {
                    self.single_quote = !self.single_quote
                }
            },
            _ => {},
        }
        if self.backslash {
            self.backslash = false
        } else if ch == '\\' {
            self.backslash = true
        }
    }

    /// If the next character would be whitespace, would it be escaped
    /// or viewed as a word delimiter?
    pub fn whitespace_escaped(&self) -> (r: bool)
        ensures
            r == self.spec_whitespace_escaped(),
    {
        self.single_quote || self.double_quote || self.backslash
    }

    /// If the next character would be `"`, would it be escaped or
    /// would it start/end a double-quoted region?
    pub fn doublequote_escaped(&self) -> (r: bool)
        ensures
            r == self.spec_doublequote_escaped(),
    {
        self.single_quote || self.backslash
    }

    /// If the next character would be `'`, would it be escaped or
    /// would it start/end a single-quoted region?
    pub fn singlequote_escaped(&self) -> (r: bool)
        ensures
            r == self.spec_singlequote_escaped(),
    {
        self.double_quote || self.backslash
    }

    /// If the next character would be a backslash, would it be escaped
    /// or would it itself arm an escape for the character after it?
    pub fn backslash_escaped(&self) -> (r: bool)
        ensures
            r == self.spec_backslash_escaped(),
    {
        self.double_quote || self.backslash
    }

    /// Calls `step` for every character in `line` and returns the
    /// resulting state.
    pub fn process(line: &str) -> (r: EscapingState)
        ensures
            r == EscapingState::spec_process(line@),
    {
        let mut state = EscapingState::new();
        let len = line.unicode_len();
        let mut i: usize = 0;
        while i < len
            invariant
                i <= len,
                len == line@.len(),
                state == EscapingState::spec_process(line@.take(i as int)),
            decreases len - i,
        {
            let ch = line.get_char(i);
            proof {
                assert(line@.take(i + 1).drop_last() =~= line@.take(i as int));
            }
            state.step(ch);
            i += 1;
        }
        proof {
            assert(line@.take(len as int) =~= line@);
        }
        state
    }
}

/// Whether `c`, read in state `st`, separates words: it is whitespace
/// and no escaping mechanism protects it.
pub open spec fn spec_boundary(st: EscapingState, c: char) -> bool {
    spec_is_whitespace(c) && !st.spec_whitespace_escaped()
}

/// Whether `c`, read in state `st`, is emitted into the current word.
/// Quote and backslash characters are consumed as markers unless they
/// are themselves escaped; every other non-boundary character is kept.
pub open spec fn spec_emits(st: EscapingState, c: char) -> bool {
    if c == '"' {
        st.spec_doublequote_escaped()
    } else if c == '\'' {
        st.spec_singlequote_escaped()
    } else if c == '\\' {
        st.spec_backslash_escaped()
    } else {
        true
    }
}

/// The words produced by scanning `s` from state `st` with the word
/// accumulated so far in `acc`: a boundary closes a non-empty
/// accumulator, every emitted character extends it, and a non-empty
/// accumulator left at the end of input is flushed as the final word.
pub open spec fn spec_split_from(s: Seq<char>, st: EscapingState, acc: Seq<char>) -> Seq<
    Seq<char>,
>
    decreases s.len(),
{
    if s.len() == 0 {
        if acc.len() > 0 {
            seq![acc]
        } else {
            Seq::empty()
        }
    } else {
        let c = s[0];
        let rest = s.drop_first();
        if spec_boundary(st, c) {
            if acc.len() > 0 {
                seq![acc] + spec_split_from(rest, st.spec_step(c), Seq::empty())
            } else {
                spec_split_from(rest, st.spec_step(c), Seq::empty())
            }
        } else {
            let acc2 = if spec_emits(st, c) {
                acc.push(c)
            } else {
                acc
            };
            spec_split_from(rest, st.spec_step(c), acc2)
        }
    }
}

/// The word sequence a whole command line splits into.
pub open spec fn spec_split(s: Seq<char>) -> Seq<Seq<char>> {
    spec_split_from(s, EscapingState::spec_init(), Seq::empty())
}

/// Relies on `String::push`: appends the given character to the end
/// of the string.
#[verifier::external_body]
fn push_char(s: &mut String, c: char)
    ensures
        final(s)@ == old(s)@.push(c),
{
    s.push(c)
}

/// Builds the `String` holding exactly the characters of `chars`.
pub(crate) fn chars_to_string(chars: &Vec<char>) -> (r: String)
    ensures
        r@ == chars@,
{
    let mut s = String::new();
    let mut i: usize = 0;
    while i < chars.len()
        invariant
            i <= chars.len(),
            s@ == chars@.take(i as int),
        decreases chars.len() - i,
    {
        push_char(&mut s, chars[i]);
        proof {
            assert(chars@.take(i + 1) =~= chars@.take(i as int).push(chars@[i as int]));
        }
        i += 1;
    }
    proof {
        assert(chars@.take(chars@.len() as int) =~= chars@);
    }
    s
}

/// Collects the characters of `s` into a vector.
pub(crate) fn string_to_chars(s: &str) -> (r: Vec<char>)
    ensures
        r@ == s@,
{
    let mut chars: Vec<char> = Vec::new();
    let len = s.unicode_len();
    let mut i: usize = 0;
    while i < len
        invariant
            i <= len,
            len == s@.len(),
            chars@ == s@.take(i as int),
        decreases len - i,
    {
        chars.push(s.get_char(i));
        proof {
            assert(s@.take(i + 1) =~= s@.take(i as int).push(s@[i as int]));
        }
        i += 1;
    }
    proof {
        assert(s@.take(len as int) =~= s@);
    }
    chars
}

/// Splits a command line into its components/arguments.
/// Works similar to `split_whitespace`.
///
/// The main difference to `split_whitespace` is: it respects
/// whitespace escaping (`"`, `'`, `\`) as well as escaping of the
/// escaping characters (`\"`, `'\'`, …). Thus, strings (`"A B C"`)
/// show up as single arguments. The function is total: an
/// unterminated quote or a trailing backslash simply yields whatever
/// characters were accumulated.
pub fn split(cmdline: &str) -> (r: Vec<String>)
    ensures
        r.deep_view() == spec_split(cmdline@),
{
    let mut parts: Vec<String> = Vec::new();
    let mut act: Vec<char> = Vec::new();
    let mut state = EscapingState::new();
    let len = cmdline.unicode_len();
    let mut i: usize = 0;
    proof {
        assert(cmdline@.skip(0) =~= cmdline@);
        assert(parts.deep_view() =~= Seq::<Seq<char>>::empty());
        assert(Seq::<Seq<char>>::empty() + spec_split(cmdline@) =~= spec_split(cmdline@));
    }
    while i < len
        invariant
            i <= len,
            len == cmdline@.len(),
            spec_split(cmdline@) == parts.deep_view() + spec_split_from(
                cmdline@.skip(i as int),
                state,
                act@,
            ),
        decreases len - i,
    {
        let ch = cmdline.get_char(i);
        let ghost s_i = cmdline@.skip(i as int);
        let ghost s_next = cmdline@.skip(i + 1);
        let ghost st0 = state;
        let ghost acc0 = act@;
        let ghost parts_dv = parts.deep_view();
        proof {
            assert(s_i[0] == cmdline@[i as int]);
            assert(s_i.drop_first() =~= s_next);
        }
        if is_whitespace(ch) && !state.whitespace_escaped() {
            if !act.is_empty() {
                let word = chars_to_string(&act);
                parts.push(word);
                act = Vec::new();
                proof {
                    assert(spec_split_from(s_i, st0, acc0) == seq![acc0] + spec_split_from(
                        s_next,
                        st0.spec_step(ch),
                        Seq::empty(),
                    ));
                    assert(parts.deep_view() =~= parts_dv.push(word@));
                    assert(act@ =~= Seq::<char>::empty());
                    assert(parts_dv + (seq![acc0] + spec_split_from(
                        s_next,
                        st0.spec_step(ch),
                        Seq::empty(),
                    )) =~= parts.deep_view() + spec_split_from(
                        s_next,
                        st0.spec_step(ch),
                        Seq::empty(),
                    ));
                }
            } else {
                proof {
                    assert(acc0 =~= Seq::<char>::empty());
                    assert(spec_split_from(s_i, st0, acc0) == spec_split_from(
                        s_next,
                        st0.spec_step(ch),
                        Seq::empty(),
                    ));
                }
            }
        } else {
            let emit = if ch == '"' {
                state.doublequote_escaped()
            } else if ch == '\'' {
                state.singlequote_escaped()
            } else if ch == '\\' {
                state.backslash_escaped()
            } else {
                true
            };
            if emit {
                act.push(ch);
            }
            proof {
                assert(emit == spec_emits(st0, ch));
                assert(act@ == if spec_emits(st0, ch) {
                    acc0.push(ch)
                } else {
                    acc0
                });
                assert(spec_split_from(s_i, st0, acc0) == spec_split_from(
                    s_next,
                    st0.spec_step(ch),
                    act@,
                ));
            }
        }
        state.step(ch);
        i += 1;
    }
    proof {
        assert(cmdline@.skip(len as int) =~= Seq::<char>::empty());
    }
    if !act.is_empty() {
        let ghost parts_dv = parts.deep_view();
        let word = chars_to_string(&act);
        parts.push(word);
        proof {
            assert(parts.deep_view() =~= parts_dv.push(word@));
            assert(parts_dv.push(word@) =~= parts_dv + seq![word@]);
        }
    } else {
        proof {
            assert(parts.deep_view() + Seq::<Seq<char>>::empty() =~= parts.deep_view());
        }
    }
    parts
}

/// The state after processing all of `s` starting from `st` instead
/// of the initial state; [`lemma_process_append`] shows that this is
/// how the scanner continues mid-line.
pub open spec fn spec_process_from(s: Seq<char>, st: EscapingState) -> EscapingState
    decreases s.len(),
{
    if s.len() == 0 {
        st
    } else {
        spec_process_from(s.drop_last(), st).spec_step(s.last())
    }
}

/// Law: the scanner composes. Processing a whole line equals
/// processing its remainder from the state its prefix left behind,
/// so the state computed for a prefix of a line is exactly the
/// scanner's state at that point of the line.
pub proof fn lemma_process_append(a: Seq<char>, b: Seq<char>)
    ensures
        EscapingState::spec_process(a + b) == spec_process_from(b, EscapingState::spec_process(a)),
    decreases b.len(),
{
    if b.len() == 0 {
        assert(a + b =~= a);
    } else {
        assert((a + b).drop_last() =~= a + b.drop_last());
        assert((a + b).last() == b.last());
        lemma_process_append(a, b.drop_last());
    }
}

/// Law: scanning is incremental. The escaping state after a prefix of
/// `s` extended by one more character is one `spec_step` from the
/// state after the prefix, so the state reported for any prefix of a
/// line is the scanner's state at exactly that point of the line.
pub proof fn lemma_process_prefix_step(s: Seq<char>, i: int)
    requires
        0 <= i < s.len(),
    ensures
        EscapingState::spec_process(s.take(i + 1)) == EscapingState::spec_process(
            s.take(i),
        ).spec_step(s[i]),
{
    assert(s.take(i + 1).drop_last() =~= s.take(i));
    assert(s.take(i + 1).last() == s[i]);
}

/// Law: escaping-state round trip. For any prefix `p` of a command
/// line, the state processed from `p` reports a following whitespace
/// as escaped exactly when `p` ends inside an open single- or
/// double-quoted region or immediately after an active backslash.
pub proof fn lemma_whitespace_escaped_iff_open(p: Seq<char>)
    ensures
        EscapingState::spec_process(p).spec_whitespace_escaped() <==> (
        EscapingState::spec_process(p).single_quote || EscapingState::spec_process(p).double_quote
            || EscapingState::spec_process(p).backslash),
{
}

/// Every word of `ws` is non-empty.
pub open spec fn spec_words_nonempty(ws: Seq<Seq<char>>) -> bool {
    forall|k: int| 0 <= k < ws.len() ==> (#[trigger] ws[k]).len() > 0
}

proof fn lemma_split_from_no_empty(s: Seq<char>, st: EscapingState, acc: Seq<char>)
    ensures
        spec_words_nonempty(spec_split_from(s, st, acc)),
    decreases s.len(),
{
    let r = spec_split_from(s, st, acc);
    if s.len() == 0 {
        if acc.len() > 0 {
            assert(r[0] == acc);
        }
    } else {
        let c = s[0];
        let rest = s.drop_first();
        if spec_boundary(st, c) {
            lemma_split_from_no_empty(rest, st.spec_step(c), Seq::empty());
            let rr = spec_split_from(rest, st.spec_step(c), Seq::empty());
            if acc.len() > 0 {
                assert(r == seq![acc] + rr);
                assert forall|k: int| 0 <= k < r.len() implies (#[trigger] r[k]).len() > 0 by {
                    if k == 0 {
                        assert(r[k] == acc);
                    } else {
                        assert(r[k] == rr[k - 1]);
                    }
                }
            } else {
                assert(r == rr);
            }
        } else {
            let acc2 = if spec_emits(st, c) {
                acc.push(c)
            } else {
                acc
            };
            lemma_split_from_no_empty(rest, st.spec_step(c), acc2);
            assert(r == spec_split_from(rest, st.spec_step(c), acc2));
        }
    }
}

/// Law: no empty words. Every word that [`spec_split`] produces is
/// non-empty, whatever the input line holds.
pub proof fn lemma_split_no_empty_words(s: Seq<char>)
    ensures
        spec_words_nonempty(spec_split(s)),
{
    lemma_split_from_no_empty(s, EscapingState::spec_init(), Seq::empty());
}

/// Law: a line of nothing but whitespace splits into no words at all.
pub proof fn lemma_split_whitespace_only(s: Seq<char>)
    requires
        forall|i: int| 0 <= i < s.len() ==> spec_is_whitespace(s[i]),
    ensures
        spec_split(s).len() == 0,
    decreases s.len(),
{
    if s.len() > 0 {
        let c = s[0];
        let rest = s.drop_first();
        assert(spec_is_whitespace(c));
        assert(EscapingState::spec_init().spec_step(c) == EscapingState::spec_init());
        assert(forall|i: int| 0 <= i < rest.len() ==> spec_is_whitespace(#[trigger] rest[i]));
        lemma_split_whitespace_only(rest);
    }
}

/// A character that takes part in escaping: a quote of either kind or
/// a backslash.
pub open spec fn spec_quoting_char(c: char) -> bool {
    c == '"' || c == '\'' || c == '\\'
}

/// A character with no role in escaping or word separation: it is
/// neither whitespace nor a quote nor a backslash.
pub open spec fn spec_plain_char(c: char) -> bool {
    !spec_is_whitespace(c) && !spec_quoting_char(c)
}

/// A non-empty word of plain characters; such a word passes through
/// [`spec_split`] untouched.
pub open spec fn spec_plain_word(w: Seq<char>) -> bool {
    w.len() > 0 && forall|i: int| 0 <= i < w.len() ==> spec_plain_char(#[trigger] w[i])
}

/// Every word of `ws` is a plain word.
pub open spec fn spec_words_plain(ws: Seq<Seq<char>>) -> bool {
    forall|k: int| 0 <= k < ws.len() ==> spec_plain_word(#[trigger] ws[k])
}

/// The words joined back into one line with a single space between
/// each pair of neighbours.
pub open spec fn spec_join(words: Seq<Seq<char>>) -> Seq<char>
    decreases words.len(),
{
    if words.len() == 0 {
        Seq::empty()
    } else if words.len() == 1 {
        words[0]
    } else {
        words[0] + seq![' '] + spec_join(words.drop_first())
    }
}

proof fn lemma_split_from_plain_prefix(w: Seq<char>, t: Seq<char>, acc: Seq<char>)
    requires
        forall|i: int| 0 <= i < w.len() ==> spec_plain_char(#[trigger] w[i]),
    ensures
        spec_split_from(w + t, EscapingState::spec_init(), acc) == spec_split_from(
            t,
            EscapingState::spec_init(),
            acc + w,
        ),
    decreases w.len(),
{
    if w.len() == 0 {
        assert(w + t =~= t);
        assert(acc + w =~= acc);
    } else {
        let c = w[0];
        assert((w + t)[0] == c);
        assert((w + t).len() > 0);
        assert((w + t).drop_first() =~= w.drop_first() + t);
        assert(EscapingState::spec_init().spec_step(c) == EscapingState::spec_init());
        assert(forall|i: int|
            0 <= i < w.drop_first().len() ==> spec_plain_char(#[trigger] w.drop_first()[i]));
        lemma_split_from_plain_prefix(w.drop_first(), t, acc.push(c));
        assert(acc.push(c) + w.drop_first() =~= acc + w);
    }
}

proof fn lemma_split_from_space(t: Seq<char>, acc: Seq<char>)
    requires
        acc.len() > 0,
    ensures
        spec_split_from(seq![' '] + t, EscapingState::spec_init(), acc) == seq![acc]
            + spec_split_from(t, EscapingState::spec_init(), Seq::empty()),
{
    let s = seq![' '] + t;
    assert(s[0] == ' ');
    assert(s.len() > 0);
    assert(s.drop_first() =~= t);
    assert(EscapingState::spec_init().spec_step(' ') == EscapingState::spec_init());
}

/// Law: joining plain words with single spaces and splitting again
/// reproduces exactly those words.
pub proof fn lemma_split_join(words: Seq<Seq<char>>)
    requires
        spec_words_plain(words),
    ensures
        spec_split(spec_join(words)) == words,
    decreases words.len(),
{
    if words.len() == 0 {
        assert(spec_split(Seq::<char>::empty()) =~= Seq::<Seq<char>>::empty());
        assert(words =~= Seq::<Seq<char>>::empty());
    } else if words.len() == 1 {
        let w = words[0];
        assert(spec_plain_word(w));
        lemma_split_from_plain_prefix(w, Seq::empty(), Seq::empty());
        assert(w + Seq::<char>::empty() =~= w);
        assert(Seq::<char>::empty() + w =~= w);
        assert(spec_split_from(Seq::empty(), EscapingState::spec_init(), w) == seq![w]);
        assert(seq![w] =~= words);
    } else {
        let w = words[0];
        let rest = words.drop_first();
        let jr = spec_join(rest);
        assert(spec_plain_word(w));
        assert(spec_join(words) == w + seq![' '] + jr);
        assert((w + seq![' ']) + jr =~= w + (seq![' '] + jr));
        lemma_split_from_plain_prefix(w, seq![' '] + jr, Seq::empty());
        assert(Seq::<char>::empty() + w =~= w);
        lemma_split_from_space(jr, w);
        assert forall|k: int| 0 <= k < rest.len() implies spec_plain_word(#[trigger] rest[k]) by {
            assert(rest[k] == words[k + 1]);
        }
        lemma_split_join(rest);
        assert(seq![w] + rest =~= words);
    }
}

proof fn lemma_split_from_plain_chars(s: Seq<char>, acc: Seq<char>)
    requires
        forall|i: int| 0 <= i < s.len() ==> !spec_quoting_char(#[trigger] s[i]),
        forall|i: int| 0 <= i < acc.len() ==> spec_plain_char(#[trigger] acc[i]),
    ensures
        spec_words_plain(spec_split_from(s, EscapingState::spec_init(), acc)),
    decreases s.len(),
{
    let st = EscapingState::spec_init();
    let r = spec_split_from(s, st, acc);
    if s.len() == 0 {
        if acc.len() > 0 {
            assert(r[0] == acc);
            assert(spec_plain_word(acc));
        }
    } else {
        let c = s[0];
        let rest = s.drop_first();
        assert(!spec_quoting_char(c));
        assert(st.spec_step(c) == st);
        assert(forall|i: int|
            0 <= i < rest.len() ==> !spec_quoting_char(#[trigger] rest[i]));
        if spec_boundary(st, c) {
            lemma_split_from_plain_chars(rest, Seq::empty());
            let rr = spec_split_from(rest, st, Seq::empty());
            if acc.len() > 0 {
                assert(r == seq![acc] + rr);
                assert(spec_plain_word(acc));
                assert forall|k: int| 0 <= k < r.len() implies spec_plain_word(#[trigger] r[k]) by {
                    if k == 0 {
                        assert(r[k] == acc);
                    } else {
                        assert(r[k] == rr[k - 1]);
                    }
                }
            } else {
                assert(r == rr);
            }
        } else {
            assert(!spec_is_whitespace(c));
            assert(spec_plain_char(c));
            assert(spec_emits(st, c));
            assert(forall|i: int|
                0 <= i < acc.push(c).len() ==> spec_plain_char(#[trigger] acc.push(c)[i]));
            lemma_split_from_plain_chars(rest, acc.push(c));
            assert(r == spec_split_from(rest, st, acc.push(c)));
        }
    }
}

/// Law: idempotence of splitting. For a line `s` free of quote and
/// backslash characters, joining `spec_split(s)` with single spaces
/// and splitting again reproduces the same word sequence. (With
/// escaping characters present this fails: `A\ B` splits into the
/// word `A B`, whose rejoined form splits into two words.)
pub proof fn lemma_split_join_idempotent(s: Seq<char>)
    requires
        forall|i: int| 0 <= i < s.len() ==> !spec_quoting_char(#[trigger] s[i]),
    ensures
        spec_split(spec_join(spec_split(s))) == spec_split(s),
{
    lemma_split_from_plain_chars(s, Seq::empty());
    lemma_split_join(spec_split(s));
}

/// Whether the last character of `text` is whitespace; `false` for an
/// empty `text`.
pub fn ends_with_whitespace(text: &str) -> (r: bool)
    ensures
        r == (text@.len() > 0 && spec_is_whitespace(text@.last())),
{
    let len = text.unicode_len();
    if len == 0 {
        false
    } else {
        is_whitespace(text.get_char(len - 1))
    }
}

} // verus!
