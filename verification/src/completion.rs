//! Tab completion against a declared command tree.
//!
//! A [`Command`] names a command together with its possible arguments
//! (concrete flags or free-form placeholders) and its subcommands.
//! [`complete`] resolves the line typed so far against such a tree
//! and answers with nothing, a human-readable hint, or the list of
//! words that validly continue the line.

use vstd::prelude::*;
use vstd::slice::slice_index_get;
use vstd::string::StringExecFns;
use vstd::string::StrSliceExecFns;

use crate::split::spec_is_whitespace;
use crate::split::spec_split;
use crate::split::ends_with_whitespace;
use crate::split::split;

verus! {

/// A (sub)command may have arbitrary arguments, which the completion
/// may describe to the user when prompted. `name` and `description`
/// are for informative purpose only.
pub struct ArbitraryArgument {
    pub name: String,
    pub description: String,
}

/// Concrete possible argument.
///
/// A flag may have a number of mandatory arguments; only after
/// `arguments.len()` arguments after a flag may the next argument be
/// completed.
pub struct Flag {
    pub name: String,
    pub arguments: Vec<ArbitraryArgument>,
}

impl Flag {
    pub fn new(flag: &str) -> (r: Flag)
        ensures
            r.name@ == flag@,
            r.arguments@.len() == 0,
    {
        Flag { name: String::from_str(flag), arguments: Vec::new() }
    }
}

/// A (sub)command's argument, of one of two kinds: a concrete flag,
/// or a free-form argument with a description.
pub enum Argument {
    /// Concrete possible argument.
    Flag(Flag),
    /// A free-form argument; its name and description are shown to
    /// the user instead of a completion list.
    ArbitraryArgument(ArbitraryArgument),
}

/// Possible (sub)command displayed in tab completion.
///
/// The arguments right from a (sub)command may be flags, arbitrary
/// arguments or even subcommands. They all can be displayed or even
/// tab-completed when described in this data structure's attributes.
pub struct Command {
    pub name: String,
    pub args: Vec<Argument>,
    pub subcommands: Vec<Command>,
}

impl Command {
    /// Create a new instance by specifying the command's name.
    pub fn new(name: &str) -> (r: Command)
        ensures
            r.name@ == name@,
            r.args@.len() == 0,
            r.subcommands@.len() == 0,
    {
        Command { name: String::from_str(name), args: Vec::new(), subcommands: Vec::new() }
    }

    /// Add a subcommand to this command.
    pub fn subcommand(self, cmd: Command) -> (r: Command)
        ensures
            r.name == self.name,
            r.args == self.args,
            r.subcommands@ == self.subcommands@.push(cmd),
    {
        let mut s = self;
        s.subcommands.push(cmd);
        s
    }

    /// Add a concrete argument (a flag without mandatory values) to
    /// this command.
    pub fn arg(self, flag: &str) -> (r: Command)
        ensures
            r.name == self.name,
            r.subcommands == self.subcommands,
            r.args@.len() == self.args@.len() + 1,
            forall|i: int| 0 <= i < self.args@.len() ==> r.args@[i] == self.args@[i],
            r.args@.last() matches Argument::Flag(f) && f.name@ == flag@ && f.arguments@.len()
                == 0,
    {
        let mut s = self;
        s.args.push(Argument::Flag(Flag::new(flag)));
        s
    }

    /// Add any argument, concrete or free-form, to this command.
    pub fn argument(self, arg: Argument) -> (r: Command)
        ensures
            r.name == self.name,
            r.subcommands == self.subcommands,
            r.args@ == self.args@.push(arg),
    {
        let mut s = self;
        s.args.push(arg);
        s
    }
}

/// What the resolver answers: nothing to suggest, a human-readable
/// hint for a free-form position, or the list of words that validly
/// continue the line.
pub enum CompletionResult {
    Nothing,
    Description(String),
    PossibilityList(Vec<String>),
}

/// The mathematical shape of a [`CompletionResult`]: the same three
/// cases over character sequences.
pub enum CompletionView {
    Nothing,
    Description(Seq<char>),
    PossibilityList(Seq<Seq<char>>),
}

impl View for CompletionResult {
    type V = CompletionView;

    open spec fn view(&self) -> CompletionView {
        match self {
            CompletionResult::Nothing => CompletionView::Nothing,
            CompletionResult::Description(d) => CompletionView::Description(d@),
            CompletionResult::PossibilityList(l) => CompletionView::PossibilityList(
                l.deep_view(),
            ),
        }
    }
}

/// The names of `cmds`, in declaration order.
pub open spec fn spec_command_names(cmds: Seq<Command>) -> Seq<Seq<char>> {
    cmds.map_values(|c: Command| c.name@)
}

/// The last command in `pool` whose name is `word`, if any: when a
/// name is declared twice, the later declaration wins.
pub open spec fn spec_find_match(pool: Seq<Command>, word: Seq<char>) -> Option<Command>
    decreases pool.len(),
{
    if pool.len() == 0 {
        None
    } else if pool.last().name@ == word {
        Some(pool.last())
    } else {
        spec_find_match(pool.drop_last(), word)
    }
}

/// The command position reached after walking `components` through
/// the grammar: each component is matched against the commands
/// reachable at the current position (the top-level commands at the
/// start, the subcommands of the last match after one), the walk
/// descends on every match and never backtracks, and the deepest
/// match found along the walk is retained. A component that matches
/// nothing leaves the position unchanged.
pub open spec fn spec_walk(
    components: Seq<Seq<char>>,
    pool: Seq<Command>,
    current: Option<Command>,
) -> Option<Command>
    decreases components.len(),
{
    if components.len() == 0 {
        current
    } else {
        match spec_find_match(pool, components[0]) {
            Some(c) => spec_walk(components.drop_first(), c.subcommands@, Some(c)),
            None => spec_walk(components.drop_first(), pool, current),
        }
    }
}

/// Whether any declared argument of `args` is free-form.
pub open spec fn spec_has_arbitrary(args: Seq<Argument>) -> bool {
    exists|i: int| 0 <= i < args.len() && (#[trigger] args[i]) is ArbitraryArgument
}

/// The names of the flags among `args`, in declaration order.
pub open spec fn spec_flag_names(args: Seq<Argument>) -> Seq<Seq<char>>
    decreases args.len(),
{
    if args.len() == 0 {
        Seq::empty()
    } else {
        spec_flag_names(args.drop_last()) + (if args.last() is Flag {
            seq![args.last()->Flag_0.name@]
        } else {
            Seq::empty()
        })
    }
}

/// The direct candidate set of a resolved command: a free-form
/// argument position admits no finite word list and yields a
/// description instead; otherwise the candidates are the flag names
/// followed by the subcommand names, in declaration order.
pub open spec fn spec_possible_completions(cmd: Command) -> CompletionView {
    if spec_has_arbitrary(cmd.args@) {
        CompletionView::Description("Various artists"@)
    } else {
        CompletionView::PossibilityList(
            spec_flag_names(cmd.args@) + spec_command_names(cmd.subcommands@),
        )
    }
}

/// The words of `words` that start with `prefix`, in order.
pub open spec fn spec_prefix_filter(words: Seq<Seq<char>>, prefix: Seq<char>) -> Seq<Seq<char>>
    decreases words.len(),
{
    if words.len() == 0 {
        Seq::empty()
    } else {
        spec_prefix_filter(words.drop_last(), prefix) + (if prefix.is_prefix_of(words.last()) {
            seq![words.last()]
        } else {
            Seq::empty()
        })
    }
}

/// The word being completed: a fresh empty word when the raw text
/// ends in whitespace (the previous word is finished), otherwise the
/// last word the text splits into, which is still in progress.
pub open spec fn spec_word_to_complete(text: Seq<char>) -> Seq<char> {
    if text.len() == 0 || spec_is_whitespace(text.last()) || spec_split(text).len() == 0 {
        Seq::empty()
    } else {
        spec_split(text).last()
    }
}

/// The finished components of the line: all its words, less the
/// in-progress one when the text does not end in whitespace.
pub open spec fn spec_components(text: Seq<char>) -> Seq<Seq<char>> {
    if text.len() == 0 || spec_is_whitespace(text.last()) || spec_split(text).len() == 0 {
        spec_split(text)
    } else {
        spec_split(text).drop_last()
    }
}

/// What [`complete`] answers for the line `text` against the
/// top-level commands `cmds`.
pub open spec fn spec_complete(text: Seq<char>, cmds: Seq<Command>) -> CompletionView {
    if text.len() == 0 {
        if cmds.len() == 0 {
            CompletionView::Nothing
        } else {
            CompletionView::PossibilityList(spec_command_names(cmds))
        }
    } else {
        let comps = spec_components(text);
        let word = spec_word_to_complete(text);
        match spec_walk(comps, cmds, None) {
            Some(cmd) => {
                if spec_has_arbitrary(cmd.args@) {
                    CompletionView::Description("Various possible"@)
                } else {
                    CompletionView::PossibilityList(
                        spec_prefix_filter(
                            spec_flag_names(cmd.args@) + spec_command_names(cmd.subcommands@),
                            word,
                        ),
                    )
                }
            },
            None => {
                if comps.len() == 0 {
                    CompletionView::PossibilityList(
                        spec_prefix_filter(spec_command_names(cmds), word),
                    )
                } else {
                    CompletionView::PossibilityList(Seq::empty())
                }
            },
        }
    }
}

/// The value behind an optional reference, for stating what the
/// reference-returning walk resolves to.
pub open spec fn spec_deref_command(r: Option<&Command>) -> Option<Command> {
    match r {
        Some(c) => Some(*c),
        None => None,
    }
}

fn command_names(commands: &[Command]) -> (r: Vec<String>)
    ensures
        r.deep_view() == spec_command_names(commands@),
{
    let mut result: Vec<String> = Vec::new();
    let mut j: usize = 0;
    while j < commands.len()
        invariant
            j <= commands@.len(),
            result.deep_view() == spec_command_names(commands@.take(j as int)),
        decreases commands@.len() - j,
    {
        let ghost dv = result.deep_view();
        let cmd = slice_index_get(commands, j);
        result.push(cmd.name.clone());
        proof {
            assert(result.deep_view() =~= dv.push(cmd.name@));
            assert(spec_command_names(commands@.take(j + 1)) =~= spec_command_names(
                commands@.take(j as int),
            ).push(commands@[j as int].name@));
        }
        j += 1;
    }
    proof {
        assert(commands@.take(commands@.len() as int) =~= commands@);
    }
    result
}

/// Resolves where in the command tree the finished components of the
/// line have led. Each component is looked up among the commands
/// reachable at the current position; on a match the walk descends
/// into that command's subcommands, the later of two equally named
/// matches winning; on no match the position is kept and the walk
/// goes on with the next component, without backtracking.
fn active_command<'a>(cmdline: &Vec<String>, commands: &'a [Command]) -> (r: Option<&'a Command>)
    ensures
        spec_deref_command(r) == spec_walk(cmdline.deep_view(), commands@, None),
{
    let ghost full = cmdline.deep_view();
    let mut result: Option<&'a Command> = None;
    let mut pool: &'a [Command] = commands;
    let mut i: usize = 0;
    proof {
        assert(full.skip(0) =~= full);
    }
    while i < cmdline.len()
        invariant
            i <= cmdline@.len(),
            full == cmdline.deep_view(),
            spec_walk(full, commands@, None) == spec_walk(
                full.skip(i as int),
                pool@,
                spec_deref_command(result),
            ),
        decreases cmdline@.len() - i,
    {
        let component: &String = &cmdline[i];
        proof {
            assert(full.skip(i as int)[0] == full[i as int]);
            assert(full[i as int] == component@);
            assert(full.skip(i as int).drop_first() =~= full.skip(i + 1));
        }
        let mut found: Option<&'a Command> = None;
        let mut j: usize = 0;
        while j < pool.len()
            invariant
                j <= pool@.len(),
                spec_deref_command(found) == spec_find_match(pool@.take(j as int), component@),
            decreases pool@.len() - j,
        {
            let command = slice_index_get(pool, j);
            proof {
                assert(pool@.take(j + 1).drop_last() =~= pool@.take(j as int));
                assert(pool@.take(j + 1).last() == pool@[j as int]);
            }
            if *component == command.name {
                found = Some(command);
            }
            j += 1;
        }
        proof {
            assert(pool@.take(pool@.len() as int) =~= pool@);
        }
        if let Some(c) = found {
            result = Some(c);
            pool = c.subcommands.as_slice();
        }
        i += 1;
    }
    proof {
        assert(full.skip(full.len() as int) =~= Seq::<Seq<char>>::empty());
    }
    result
}

/// Returns the possible arguments (flags, subcommands, …) of `cmd`
/// as a `CompletionResult`.
fn get_possible_completions(cmd: &Command) -> (r: CompletionResult)
    ensures
        r@ == spec_possible_completions(*cmd),
{
    let mut list: Vec<String> = Vec::new();
    let mut j: usize = 0;
    while j < cmd.args.len()
        invariant
            j <= cmd.args@.len(),
            forall|i: int| 0 <= i < j ==> !((#[trigger] cmd.args@[i]) is ArbitraryArgument),
            list.deep_view() == spec_flag_names(cmd.args@.take(j as int)),
        decreases cmd.args@.len() - j,
    {
        let ghost dv = list.deep_view();
        proof {
            assert(cmd.args@.take(j + 1).drop_last() =~= cmd.args@.take(j as int));
            assert(cmd.args@.take(j + 1).last() == cmd.args@[j as int]);
        }
        match &cmd.args[j] {
            // One free-form argument makes a fixed candidate list
            // meaningless.
            Argument::ArbitraryArgument(_) => {
                proof {
                    assert(spec_has_arbitrary(cmd.args@));
                }
                return CompletionResult::Description(String::from_str("Various artists"));
            },
            Argument::Flag(flag) => {
                list.push(flag.name.clone());
                proof {
                    assert(list.deep_view() =~= dv.push(flag.name@));
                    assert(spec_flag_names(cmd.args@.take(j + 1)) =~= spec_flag_names(
                        cmd.args@.take(j as int),
                    ).push(flag.name@));
                }
            },
        }
        j += 1;
    }
    proof {
        assert(cmd.args@.take(cmd.args@.len() as int) =~= cmd.args@);
        assert(!spec_has_arbitrary(cmd.args@));
    }
    let mut k: usize = 0;
    while k < cmd.subcommands.len()
        invariant
            k <= cmd.subcommands@.len(),
            list.deep_view() == spec_flag_names(cmd.args@) + spec_command_names(
                cmd.subcommands@.take(k as int),
            ),
        decreases cmd.subcommands@.len() - k,
    {
        let ghost dv = list.deep_view();
        let sub = &cmd.subcommands[k];
        list.push(sub.name.clone());
        proof {
            assert(list.deep_view() =~= dv.push(sub.name@));
            assert(spec_flag_names(cmd.args@) + spec_command_names(cmd.subcommands@.take(k + 1))
                =~= dv.push(cmd.subcommands@[k as int].name@));
        }
        k += 1;
    }
    proof {
        assert(cmd.subcommands@.take(cmd.subcommands@.len() as int) =~= cmd.subcommands@);
    }
    CompletionResult::PossibilityList(list)
}

/// Whether `s` begins with `prefix`, character by character.
fn starts_with_prefix(s: &str, prefix: &str) -> (r: bool)
    ensures
        r == prefix@.is_prefix_of(s@),
{
    let plen = prefix.unicode_len();
    let slen = s.unicode_len();
    if plen > slen {
        proof {
            assert(!prefix@.is_prefix_of(s@));
        }
        return false;
    }
    let mut i: usize = 0;
    while i < plen
        invariant
            i <= plen,
            plen == prefix@.len(),
            plen <= slen == s@.len(),
            forall|k: int| 0 <= k < i ==> prefix@[k] == s@[k],
        decreases plen - i,
    {
        if prefix.get_char(i) != s.get_char(i) {
            proof {
                assert(s@.subrange(0, plen as int)[i as int] == s@[i as int]);
                assert(!(prefix@ =~= s@.subrange(0, plen as int)));
            }
            return false;
        }
        i += 1;
    }
    proof {
        assert(prefix@ =~= s@.subrange(0, plen as int));
    }
    true
}

/// A completion callback must return the possibilities for the
/// current argument: every word of `wordlist` starting with `word`
/// as a literal prefix, in the order given.
pub fn prefix_completion(word: &str, wordlist: &[&str]) -> (r: Vec<String>)
    ensures
        r.deep_view() == spec_prefix_filter(wordlist.deep_view(), word@),
{
    let mut result: Vec<String> = Vec::new();
    let mut i: usize = 0;
    while i < wordlist.len()
        invariant
            i <= wordlist@.len(),
            wordlist.deep_view().len() == wordlist@.len(),
            forall|k: int|
                0 <= k < wordlist@.len() ==> wordlist.deep_view()[k] == (
                #[trigger] wordlist@[k])@,
            result.deep_view() == spec_prefix_filter(wordlist.deep_view().take(i as int), word@),
        decreases wordlist@.len() - i,
    {
        let ghost dv = result.deep_view();
        let entry: &&str = slice_index_get(wordlist, i);
        proof {
            assert(wordlist.deep_view().take(i + 1).drop_last() =~= wordlist.deep_view().take(
                i as int,
            ));
            assert(wordlist.deep_view().take(i + 1).last() == wordlist.deep_view()[i as int]);
        }
        if starts_with_prefix(entry, word) {
            result.push(String::from_str(entry));
            proof {
                assert(result.deep_view() =~= dv.push(entry@));
                assert(dv.push(entry@) =~= dv + seq![entry@]);
            }
        } else {
            proof {
                assert(spec_prefix_filter(wordlist.deep_view().take(i + 1), word@) =~= dv);
            }
        }
        i += 1;
    }
    proof {
        assert(wordlist.deep_view().take(wordlist@.len() as int) =~= wordlist.deep_view());
    }
    result
}

/// Computes the completion of the line `previous` against the
/// top-level commands `commands`: the possible words for an empty
/// line are the command names; otherwise the finished words are
/// walked through the tree, a resolved position with a free-form
/// argument yields a description, and any candidate list is filtered
/// to the words that begin with the in-progress word.
pub fn complete(previous: &str, commands: &[Command]) -> (r: CompletionResult)
    ensures
        r@ == spec_complete(previous@, commands@),
{
    if previous.is_empty() {
        let possible_commands = command_names(commands);
        if possible_commands.is_empty() {
            proof {
                assert(spec_command_names(commands@).len() == commands@.len());
            }
            CompletionResult::Nothing
        } else {
            CompletionResult::PossibilityList(possible_commands)
        }
    } else {
        let mut components = split(previous);
        // When the line ends mid-word, that word is still being
        // typed: it is completed rather than walked through the tree.
        let to_complete: String = if ends_with_whitespace(previous) {
            String::new()
        } else {
            match components.pop() {
                Some(w) => w,
                None => String::new(),
            }
        };
        proof {
            assert(components.deep_view() =~= spec_components(previous@));
            assert(to_complete@ == spec_word_to_complete(previous@));
        }
        let possibilities: Vec<String> = match active_command(&components, commands) {
            Some(cmd) => {
                match get_possible_completions(cmd) {
                    CompletionResult::PossibilityList(p) => p,
                    _ => {
                        return CompletionResult::Description(
                            String::from_str("Various possible"),
                        );
                    },
                }
            },
            None => {
                if components.is_empty() {
                    command_names(commands)
                } else {
                    Vec::new()
                }
            },
        };
        let mut filtered: Vec<String> = Vec::new();
        let mut i: usize = 0;
        while i < possibilities.len()
            invariant
                i <= possibilities@.len(),
                possibilities.deep_view().len() == possibilities@.len(),
                forall|k: int|
                    0 <= k < possibilities@.len() ==> possibilities.deep_view()[k] == (
                    #[trigger] possibilities@[k])@,
                filtered.deep_view() == spec_prefix_filter(
                    possibilities.deep_view().take(i as int),
                    to_complete@,
                ),
            decreases possibilities@.len() - i,
        {
            let ghost dv = filtered.deep_view();
            proof {
                assert(possibilities.deep_view().take(i + 1).drop_last()
                    =~= possibilities.deep_view().take(i as int));
                assert(possibilities.deep_view().take(i + 1).last() == possibilities.deep_view()[
                    i as int
                ]);
            }
            let entry = &possibilities[i];
            if starts_with_prefix(entry.as_str(), to_complete.as_str()) {
                filtered.push(entry.clone());
                proof {
                    assert(filtered.deep_view() =~= dv.push(entry@));
                    assert(dv.push(entry@) =~= dv + seq![entry@]);
                }
            } else {
                proof {
                    assert(spec_prefix_filter(possibilities.deep_view().take(i + 1), to_complete@)
                        =~= dv);
                }
            }
            i += 1;
        }
        proof {
            assert(possibilities.deep_view().take(possibilities@.len() as int)
                =~= possibilities.deep_view());
        }
        CompletionResult::PossibilityList(filtered)
    }
}

proof fn lemma_empty_prefix(w: Seq<char>)
    ensures
        Seq::<char>::empty().is_prefix_of(w),
{
    assert(Seq::<char>::empty() =~= w.subrange(0, 0));
}

proof fn lemma_prefix_filter_sound(words: Seq<Seq<char>>, prefix: Seq<char>)
    ensures
        forall|k: int|
            0 <= k < spec_prefix_filter(words, prefix).len() ==> prefix.is_prefix_of(
                #[trigger] spec_prefix_filter(words, prefix)[k],
            ),
    decreases words.len(),
{
    let f = spec_prefix_filter(words, prefix);
    if words.len() == 0 {
    } else {
        lemma_prefix_filter_sound(words.drop_last(), prefix);
        let fd = spec_prefix_filter(words.drop_last(), prefix);
        if prefix.is_prefix_of(words.last()) {
            assert forall|k: int| 0 <= k < f.len() implies prefix.is_prefix_of(
                #[trigger] f[k],
            ) by {
                if k < fd.len() {
                    assert(f[k] == fd[k]);
                } else {
                    assert(f[k] == words.last());
                }
            }
        } else {
            assert(f =~= fd);
        }
    }
}

/// Law: completion prefix property. Every word in a
/// `PossibilityList` that [`spec_complete`] answers starts with the
/// in-progress word of the line as a literal prefix.
pub proof fn lemma_complete_prefix_property(text: Seq<char>, cmds: Seq<Command>)
    ensures
        spec_complete(text, cmds) matches CompletionView::PossibilityList(ws) ==> forall|k: int|
            0 <= k < ws.len() ==> spec_word_to_complete(text).is_prefix_of(#[trigger] ws[k]),
{
    let word = spec_word_to_complete(text);
    if text.len() == 0 {
        assert(word == Seq::<char>::empty());
        if cmds.len() > 0 {
            let ws = spec_command_names(cmds);
            assert forall|k: int| 0 <= k < ws.len() implies word.is_prefix_of(
                #[trigger] ws[k],
            ) by {
                lemma_empty_prefix(ws[k]);
            }
        }
    } else {
        match spec_walk(spec_components(text), cmds, None) {
            Some(cmd) => {
                if !spec_has_arbitrary(cmd.args@) {
                    lemma_prefix_filter_sound(
                        spec_flag_names(cmd.args@) + spec_command_names(cmd.subcommands@),
                        word,
                    );
                }
            },
            None => {
                if spec_components(text).len() == 0 {
                    lemma_prefix_filter_sound(spec_command_names(cmds), word);
                }
            },
        }
    }
}

/// Law: arbitrary-argument short-circuit. When the finished words of
/// a non-empty line resolve to a command position that declares at
/// least one free-form argument, completion answers a description
/// and never a possibility list, whatever concrete flags the
/// position also declares.
pub proof fn lemma_arbitrary_short_circuit(text: Seq<char>, cmds: Seq<Command>, cmd: Command)
    requires
        text.len() > 0,
        spec_walk(spec_components(text), cmds, None) == Some(cmd),
        spec_has_arbitrary(cmd.args@),
    ensures
        spec_complete(text, cmds) == CompletionView::Description("Various possible"@),
{
}

/// Law: completion determinism. [`complete`] ensures its result is
/// exactly [`spec_complete`] of its inputs, so two calls on the same
/// line and the same grammar answer the same result.
pub proof fn lemma_complete_deterministic(
    text: Seq<char>,
    cmds: Seq<Command>,
    r1: CompletionView,
    r2: CompletionView,
)
    requires
        r1 == spec_complete(text, cmds),
        r2 == spec_complete(text, cmds),
    ensures
        r1 == r2,
{
}

} // verus!
