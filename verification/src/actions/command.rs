//! An action that runs a command while the context is entered.

use vstd::prelude::*;
use vstd::string::StringExecFns;
use vstd::string::StrSliceExecFns;
use serde_yaml::Value;
use crate::actions::Action;
use crate::error::{outcome, ConfigError, ConfigFault};
use crate::text::{
    chars_of, is_white_space, is_whitespace, lemma_word_len, scan_word, text_view, trim,
    trim_end, trim_start, word_len,
};
use crate::yaml::{as_str, entry_text, holds_mapping, is_mapping, text_at, text_of};

verus! {

/// The name under which the command action is registered.
pub const ACTION_NAME: &'static str = "command";

/// The words of `s`: its longest runs of characters that are not white
/// space, in order.
pub open spec fn words(s: Seq<char>) -> Seq<Seq<char>>
    decreases s.len(),
    via words_terminates
{
    if s.len() == 0 {
        Seq::empty()
    } else if is_white_space(s.first()) {
        words(s.drop_first())
    } else {
        let n = word_len(s);
        seq![s.take(n as int)] + words(s.skip(n as int))
    }
}

#[via_fn]
proof fn words_terminates(s: Seq<char>) {
    lemma_word_len(s);
}

/// Whether `word` is not empty and holds no white space.
pub open spec fn is_word(word: Seq<char>) -> bool {
    word.len() > 0 && forall|k: int| 0 <= k < word.len() ==> !is_white_space(#[trigger] word[k])
}

/// White space is no part of any word, and no word is empty.
pub proof fn lemma_words_hold_no_white_space(s: Seq<char>)
    ensures
        forall|i: int| 0 <= i < words(s).len() ==> is_word(#[trigger] words(s)[i]),
    decreases s.len(),
{
    if s.len() > 0 && is_white_space(s.first()) {
        lemma_words_hold_no_white_space(s.drop_first());
        assert(words(s) == words(s.drop_first()));
    } else if s.len() > 0 {
        lemma_word_len(s);
        let n = word_len(s) as int;
        let rest = words(s.skip(n));
        lemma_words_hold_no_white_space(s.skip(n));
        assert(is_word(s.take(n)));
        assert(words(s) == seq![s.take(n)] + rest);
        assert forall|i: int| 0 <= i < words(s).len() implies is_word(#[trigger] words(s)[i]) by {
            if i > 0 {
                assert(words(s)[i] == rest[i - 1]);
            }
        }
    }
}

/// A white space character at the end of a text adds no word.
proof fn lemma_words_without_last(s: Seq<char>)
    requires
        s.len() > 0,
        is_white_space(s.last()),
    ensures
        words(s) == words(s.drop_last()),
        word_len(s) == word_len(s.drop_last()),
    decreases s.len(),
{
    let front = s.drop_last();
    if front.len() == 0 {
        assert(s.drop_first() == front);
    } else {
        let rest = s.drop_first();
        assert(rest.drop_last() == front.drop_first());
        lemma_words_without_last(rest);
        if !is_white_space(s.first()) {
            lemma_word_len(front);
            let n = word_len(front) as int;
            assert(s.take(n) == front.take(n));
            if n < front.len() {
                assert(s.skip(n).drop_last() == front.skip(n));
                lemma_words_without_last(s.skip(n));
            } else {
                let end = s.skip(n);
                assert(end.drop_first() == front.skip(n));
                assert(words(end) == words(end.drop_first()));
            }
        }
    }
}

/// White space at the start of a text adds no word.
proof fn lemma_trim_start_keeps_words(s: Seq<char>)
    ensures
        words(trim_start(s)) == words(s),
    decreases s.len(),
{
    if s.len() > 0 && is_white_space(s.first()) {
        lemma_trim_start_keeps_words(s.drop_first());
    }
}

/// White space at the end of a text adds no word.
proof fn lemma_trim_end_keeps_words(s: Seq<char>)
    ensures
        words(trim_end(s)) == words(s),
    decreases s.len(),
{
    if s.len() > 0 && is_white_space(s.last()) {
        lemma_words_without_last(s);
        lemma_trim_end_keeps_words(s.drop_last());
    }
}

/// Leading and trailing white space is no part of a command line: the
/// trimmed line has the words of the line.
pub proof fn lemma_trimming_keeps_words(line: Seq<char>)
    ensures
        command_words(trim(line)) == command_words(line),
{
    lemma_trim_start_keeps_words(line);
    lemma_trim_end_keeps_words(trim_start(line));
}

/// A command line as the words it is made of.
pub struct CommandWords {
    /// The executable.
    pub program: Seq<char>,
    /// Its positional arguments.
    pub args: Seq<Seq<char>>,
}

/// The words of the command line `line`: the line is split at white
/// space, and white space is no part of any word.
pub open spec fn command_words(line: Seq<char>) -> Seq<Seq<char>> {
    words(line)
}

/// Whether `line` names a program.
pub open spec fn has_command_name(line: Seq<char>) -> bool {
    command_words(line).len() > 0
}

/// The command that `line` stands for: its first word is the executable,
/// the others are the arguments.
pub open spec fn command_of(line: Seq<char>) -> CommandWords {
    CommandWords { program: command_words(line).first(), args: command_words(line).drop_first() }
}

/// A program with its arguments, as a command line names them: the line is
/// split at white space, its first word is the program, the others are the
/// arguments.
///
/// Nothing of a shell is in it: no quoting, no expansion.  The owner of an
/// action starts it as a process of its own, cut off from the standard
/// streams.
#[derive(Debug, PartialEq, Eq)]
pub struct CommandLine {
    /// The executable.
    pub program: String,
    /// Its positional arguments.
    pub args: Vec<String>,
}

impl View for CommandLine {
    type V = CommandWords;

    open spec fn view(&self) -> CommandWords {
        CommandWords { program: self.program@, args: self.args.deep_view() }
    }
}

/// The words of `line`.
pub fn split_words(line: &str) -> (found: Vec<String>)
    ensures
        found.deep_view() == command_words(line@),
{
    let chars = chars_of(line);
    let to: usize = chars.len();
    let mut found: Vec<String> = Vec::new();
    let mut i: usize = 0;
    assert(chars@.subrange(0, to as int) == chars@);
    while i < to
        invariant
            i <= to == chars.len(),
            chars@ == line@,
            words(chars@) == found.deep_view() + words(chars@.subrange(i as int, to as int)),
        decreases to - i,
    {
        let ghost rest = chars@.subrange(i as int, to as int);
        if is_whitespace(chars[i]) {
            assert(rest.drop_first() == chars@.subrange(i + 1, to as int));
            i = i + 1;
        } else {
            let end: usize = scan_word(&chars, i, to);
            assert(rest.take(end - i) == line@.subrange(i as int, end as int));
            assert(rest.skip(end - i) == chars@.subrange(end as int, to as int));
            let word = line.substring_char(i, end);
            found.push(String::from_str(word));
            i = end;
        }
    }
    found
}

/// Reads a command line; `None` where it names no program.
pub fn parse_command_line(line: &str) -> (command: Option<CommandLine>)
    ensures
        match command {
            Some(parsed) => has_command_name(line@) && parsed@ == command_of(line@),
            None => !has_command_name(line@),
        },
{
    let mut found = split_words(line);
    if found.len() == 0 {
        return None;
    }
    let ghost all = found.deep_view();
    let program = found.remove(0);
    assert(found.deep_view() == all.drop_first());
    Some(CommandLine { program, args: found })
}

/// The mathematical state of a [`CommandAction`].
pub struct CommandState<H> {
    /// The child process that is recorded.
    pub child: Option<H>,
    /// The command that is started when the context is entered.
    pub enter_command: CommandWords,
    /// The command that is run when the context is left.
    pub exit_command: Option<CommandWords>,
}

impl<H> CommandState<H> {
    /// The state of an action made of two command lines, with no child yet.
    pub open spec fn fresh(enter: Seq<char>, exit: Option<Seq<char>>) -> Self {
        CommandState {
            child: None,
            enter_command: command_of(enter),
            exit_command: match exit {
                Some(line) => Some(command_of(line)),
                None => None,
            },
        }
    }

    /// The state once `started` is recorded.
    pub open spec fn entered(self, started: H) -> Self {
        CommandState { child: Some(started), ..self }
    }

    /// The state once the child is handed out.
    pub open spec fn left(self) -> Self {
        CommandState { child: None, ..self }
    }

    /// What two command lines make: an action, if each of them names a
    /// program.
    pub open spec fn assembled(enter: Seq<char>, exit: Option<Seq<char>>) -> Result<
        Self,
        ConfigFault,
    > {
        if has_command_name(enter) && (exit matches Some(line) ==> has_command_name(line)) {
            Ok(Self::fresh(enter, exit))
        } else {
            Err(ConfigFault::MissingCommandName)
        }
    }

    /// What a configuration of the given shape makes: a text is the enter
    /// command line alone; a mapping needs a text under `enter` and may hold
    /// the exit command line under `leave`.
    pub open spec fn shaped(shape: CommandShape) -> Result<Self, ConfigFault> {
        match shape {
            CommandShape::Line(line) => Self::assembled(line, None),
            CommandShape::Lines { enter: Some(enter), leave } => Self::assembled(enter, leave),
            CommandShape::Lines { enter: None, .. } => Err(ConfigFault::MissingEnterCommand),
            CommandShape::Other => Err(ConfigFault::UnknownFormat),
        }
    }

    /// What a configuration value makes.
    pub open spec fn configured(value: Value) -> Result<Self, ConfigFault> {
        Self::shaped(shape_of(value))
    }
}

/// The key of the command that is started on entering.
pub open spec fn enter_key() -> Seq<char> {
    "enter"@
}

/// The key of the command that is run on leaving.
pub open spec fn leave_key() -> Seq<char> {
    "leave"@
}

/// What the command action reads of its configuration value.
#[derive(Clone, Copy, Debug, PartialEq, Eq)]
pub enum CommandConfig<'a> {
    /// The value is a text.
    Line(&'a str),
    /// The value is a mapping; these are the texts that it holds under
    /// `enter` and under `leave`.
    Lines { enter: Option<&'a str>, leave: Option<&'a str> },
    /// The value is of another shape.
    Other,
}

/// A [`CommandConfig`] with its texts as character sequences.
pub enum CommandShape {
    /// The value is a text.
    Line(Seq<char>),
    /// The value is a mapping that holds these texts under `enter` and
    /// under `leave`.
    Lines { enter: Option<Seq<char>>, leave: Option<Seq<char>> },
    /// The value is of another shape.
    Other,
}

impl<'a> View for CommandConfig<'a> {
    type V = CommandShape;

    open spec fn view(&self) -> CommandShape {
        match self {
            CommandConfig::Line(line) => CommandShape::Line(line@),
            CommandConfig::Lines { enter, leave } => CommandShape::Lines {
                enter: text_view(*enter),
                leave: text_view(*leave),
            },
            CommandConfig::Other => CommandShape::Other,
        }
    }
}

/// The shape of a configuration value.
pub open spec fn shape_of(value: Value) -> CommandShape {
    match text_of(value) {
        Some(line) => CommandShape::Line(line),
        None => if holds_mapping(value) {
            CommandShape::Lines {
                enter: entry_text(value, enter_key()),
                leave: entry_text(value, leave_key()),
            }
        } else {
            CommandShape::Other
        },
    }
}

impl<'a> CommandConfig<'a> {
    /// Reads of `value` what the command action needs.
    pub fn read(value: &'a Value) -> (config: Self)
        ensures
            config@ == shape_of(*value),
    {
        match as_str(value) {
            Some(line) => CommandConfig::Line(line),
            None => {
                if is_mapping(value) {
                    CommandConfig::Lines {
                        enter: text_at(value, "enter"),
                        leave: text_at(value, "leave"),
                    }
                } else {
                    CommandConfig::Other
                }
            },
        }
    }
}

/// An action that executes a command on context enter.
///
/// The action records the child process that was started for it, as the
/// handle `H` by which its owner holds the process.  The child leaves the
/// record only through [`Action::leave`], which hands it to the owner to be
/// killed: when the context is left, and when the action is discarded.
#[derive(Debug)]
pub struct CommandAction<H> {
    child: Option<H>,
    enter_command: CommandLine,
    exit_command: Option<CommandLine>,
}

impl<H> View for CommandAction<H> {
    type V = CommandState<H>;

    closed spec fn view(&self) -> CommandState<H> {
        CommandState {
            child: self.child,
            enter_command: self.enter_command@,
            exit_command: match self.exit_command {
                Some(line) => Some(line@),
                None => None,
            },
        }
    }
}

impl<H> CommandAction<H> {
    /// An action that starts `enter_command` on entering and runs
    /// `exit_command`, if there is one, on leaving.
    pub fn new(enter_command: &str, exit_command: Option<&str>) -> (action: Self)
        requires
            has_command_name(enter_command@),
            exit_command matches Some(line) ==> has_command_name(line@),
        ensures
            action@ == CommandState::<H>::fresh(enter_command@, text_view(exit_command)),
    {
        CommandAction {
            child: None,
            enter_command: Self::command_from_line(enter_command),
            exit_command: match exit_command {
                Some(line) => Some(Self::command_from_line(line)),
                None => None,
            },
        }
    }

    /// As [`CommandAction::new`], for command lines of which it is not
    /// known whether they name a program.
    pub fn from_lines(enter_command: &str, exit_command: Option<&str>) -> (made: Result<
        Self,
        ConfigError,
    >)
        ensures
            outcome(made) == CommandState::<H>::assembled(enter_command@, text_view(exit_command)),
    {
        let enter = match parse_command_line(enter_command) {
            Some(parsed) => parsed,
            None => {
                return Err(ConfigError::MissingCommandName);
            },
        };
        let exit = match exit_command {
            Some(line) => match parse_command_line(line) {
                Some(parsed) => Some(parsed),
                None => {
                    return Err(ConfigError::MissingCommandName);
                },
            },
            None => None,
        };
        Ok(CommandAction { child: None, enter_command: enter, exit_command: exit })
    }

    /// Reads the action's configuration: either the enter command line as a
    /// YAML string, or a mapping with the command lines under `enter` and
    /// `leave`.
    pub fn from_config(value: &Value) -> (made: Result<Self, ConfigError>)
        ensures
            outcome(made) == CommandState::<H>::configured(*value),
    {
        Self::from_shape(CommandConfig::read(value))
    }

    /// Makes the action of a configuration of which the shape is known.
    pub fn from_shape(config: CommandConfig<'_>) -> (made: Result<Self, ConfigError>)
        ensures
            outcome(made) == CommandState::<H>::shaped(config@),
    {
        match config {
            CommandConfig::Line(line) => Self::from_lines(line, None),
            CommandConfig::Lines { enter: Some(enter), leave } => Self::from_lines(enter, leave),
            CommandConfig::Lines { enter: None, .. } => Err(ConfigError::MissingEnterCommand),
            CommandConfig::Other => Err(ConfigError::UnknownFormat),
        }
    }

    /// Reads a command line that names a program.
    pub fn command_from_line(line: &str) -> (command: CommandLine)
        requires
            has_command_name(line@),
        ensures
            command@ == command_of(line@),
    {
        parse_command_line(line).unwrap()
    }

    /// The command that is started when the context is entered.
    pub fn enter_command(&self) -> (command: &CommandLine)
        ensures
            command@ == self@.enter_command,
    {
        &self.enter_command
    }

    /// The command that is run when the context is left.
    pub fn exit_command(&self) -> (command: Option<&CommandLine>)
        ensures
            match command {
                Some(line) => self@.exit_command == Some(line@),
                None => self@.exit_command is None,
            },
    {
        self.exit_command.as_ref()
    }

    /// Whether a child is recorded.
    pub fn has_child(&self) -> (recorded: bool)
        ensures
            recorded == self@.child is Some,
    {
        self.child.is_some()
    }
}

impl<H> Action for CommandAction<H> {
    type Handle = H;

    open spec fn held(&self) -> Option<H> {
        self@.child
    }

    /// Records the child that was started with the enter command.
    fn enter(&mut self, started: H) -> (replaced: Option<H>)
        ensures
            final(self)@ == old(self)@.entered(started),
    {
        let replaced = self.child.take();
        self.child = Some(started);
        replaced
    }

    /// Hands out the recorded child, which the owner kills before it runs
    /// the exit command.
    fn leave(&mut self) -> (released: Option<H>)
        ensures
            final(self)@ == old(self)@.left(),
    {
        self.child.take()
    }
}

/// Entering binds the child to the action: the child recorded on entering
/// is the one that the next leaving hands out to be killed, be it the
/// leaving of the context or the discarding of the action, and after that
/// none is recorded.
pub proof fn lemma_entered_child_is_released<H>(state: CommandState<H>, started: H)
    ensures
        state.entered(started).child == Some(started),
        state.entered(started).left().child is None,
        state.entered(started).left() == state.left(),
{
}

/// Leaving without having entered is in order: there is no child to kill,
/// the action stays as it is, and its exit command is still there to be
/// run.  The same holds of leaving twice.
pub proof fn lemma_leaving_twice_changes_nothing<H>(
    state: CommandState<H>,
    enter: Seq<char>,
    exit: Option<Seq<char>>,
)
    ensures
        CommandState::<H>::fresh(enter, exit).child is None,
        CommandState::<H>::fresh(enter, exit).left() == CommandState::<H>::fresh(enter, exit),
        state.left().child is None,
        state.left().left() == state.left(),
        state.left().exit_command == state.exit_command,
{
}

} // verus!
