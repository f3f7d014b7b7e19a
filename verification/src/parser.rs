//! The command classifier: from source lines to typed commands.

use crate::error::TranslateError;
use crate::text::{chars_of, is_whitespace, is_whitespace_char, push_line, same_text};
use vstd::prelude::*;
use vstd::string::*;

verus! {

/// The kind of a command.
#[derive(Debug, Clone, Copy, PartialEq, Eq, Structural)]
pub enum CommandType {
    ARITHMETIC,
    PUSH,
    POP,
    LABEL,
    GOTO,
    IF,
    FUNCTION,
    RETURN,
    CALL,
}

/// Whether the comment marker `//` stands in `line` at position `at`.
pub open spec fn is_comment_at(line: Seq<char>, at: int) -> bool {
    0 <= at && at + 1 < line.len() && line[at] == '/' && line[at + 1] == '/'
}

/// Where the comment of a line starts: the position of the first `//`, or
/// the length of the line if it has none.
pub open spec fn comment_start(line: Seq<char>) -> int
    decreases line.len(),
{
    if line.len() < 2 {
        line.len() as int
    } else if is_comment_at(line, 0) {
        0
    } else {
        1 + comment_start(line.skip(1))
    }
}

/// `s` without the white space at its start.
pub open spec fn trim_start(s: Seq<char>) -> Seq<char>
    decreases s.len(),
{
    if s.len() > 0 && is_whitespace(s[0]) {
        trim_start(s.skip(1))
    } else {
        s
    }
}

/// `s` without the white space at its end.
pub open spec fn trim_end(s: Seq<char>) -> Seq<char>
    decreases s.len(),
{
    if s.len() > 0 && is_whitespace(s.last()) {
        trim_end(s.drop_last())
    } else {
        s
    }
}

/// A line without its comment and without the white space around the rest.
pub open spec fn clean_line(line: Seq<char>) -> Seq<char> {
    trim_end(trim_start(line.take(comment_start(line))))
}

/// The commands of a source text: its lines, each one cleaned, without
/// those of which nothing is left.
pub open spec fn clean_lines(lines: Seq<Seq<char>>) -> Seq<Seq<char>>
    decreases lines.len(),
{
    if lines.len() == 0 {
        Seq::empty()
    } else {
        let before = clean_lines(lines.drop_last());
        let command = clean_line(lines.last());
        if command.len() == 0 {
            before
        } else {
            before.push(command)
        }
    }
}

/// The length of the word at the start of `s`: the characters before the
/// first white space.
pub open spec fn word_len(s: Seq<char>) -> nat
    decreases s.len(),
{
    if s.len() == 0 || is_whitespace(s[0]) {
        0
    } else {
        1 + word_len(s.skip(1))
    }
}

/// The words of `s`: its longest runs of characters that are not white
/// space, in order.
pub open spec fn tokens(s: Seq<char>) -> Seq<Seq<char>>
    decreases s.len(),
    via tokens_decreases
{
    if s.len() == 0 {
        Seq::empty()
    } else if is_whitespace(s[0]) {
        tokens(s.skip(1))
    } else {
        seq![s.take(word_len(s) as int)] + tokens(s.skip(word_len(s) as int))
    }
}

#[via_fn]
proof fn tokens_decreases(s: Seq<char>) {
    lemma_word_len_bounds(s);
}

/// A word is no longer than the text it starts, and not empty where the
/// text starts with a character that is no white space.
pub proof fn lemma_word_len_bounds(s: Seq<char>)
    ensures
        word_len(s) <= s.len(),
        s.len() > 0 && !is_whitespace(s[0]) ==> word_len(s) >= 1,
    decreases s.len(),
{
    if s.len() > 0 && !is_whitespace(s[0]) {
        lemma_word_len_bounds(s.skip(1));
    }
}

/// The comment of a line starts inside the line or at its end.
pub proof fn lemma_comment_start_bounds(line: Seq<char>)
    ensures
        0 <= comment_start(line) <= line.len(),
    decreases line.len(),
{
    if line.len() >= 2 && !is_comment_at(line, 0) {
        lemma_comment_start_bounds(line.skip(1));
    }
}

/// The kind of command that a mnemonic selects, if any. Mnemonics are case
/// sensitive.
pub open spec fn command_type_of(mnemonic: Seq<char>) -> Option<CommandType> {
    if mnemonic == "add"@ || mnemonic == "sub"@ || mnemonic == "neg"@ || mnemonic == "eq"@
        || mnemonic == "gt"@ || mnemonic == "lt"@ || mnemonic == "and"@ || mnemonic == "or"@
        || mnemonic == "not"@ {
        Some(CommandType::ARITHMETIC)
    } else if mnemonic == "push"@ {
        Some(CommandType::PUSH)
    } else if mnemonic == "pop"@ {
        Some(CommandType::POP)
    } else if mnemonic == "label"@ {
        Some(CommandType::LABEL)
    } else if mnemonic == "goto"@ {
        Some(CommandType::GOTO)
    } else if mnemonic == "if-goto"@ {
        Some(CommandType::IF)
    } else if mnemonic == "function"@ {
        Some(CommandType::FUNCTION)
    } else if mnemonic == "return"@ {
        Some(CommandType::RETURN)
    } else if mnemonic == "call"@ {
        Some(CommandType::CALL)
    } else {
        None
    }
}

/// How many words follow the mnemonic of a command of this kind.
pub open spec fn arity(command_type: CommandType) -> nat {
    match command_type {
        CommandType::ARITHMETIC | CommandType::RETURN => 0,
        CommandType::LABEL | CommandType::GOTO | CommandType::IF => 1,
        CommandType::PUSH | CommandType::POP | CommandType::FUNCTION | CommandType::CALL => 2,
    }
}

/// The kind of the command that stands in `command`: the kind that its
/// first word selects. A text without words, or with a first word that is
/// no mnemonic, is malformed.
pub open spec fn classify(command: Seq<char>) -> Result<CommandType, TranslateError> {
    let words = tokens(command);
    if words.len() == 0 {
        Err(TranslateError::MalformedCommand)
    } else {
        match command_type_of(words[0]) {
            Some(command_type) => Ok(command_type),
            None => Err(TranslateError::MalformedCommand),
        }
    }
}

/// A classified command.
pub struct CommandView {
    /// The kind of the command.
    pub command_type: CommandType,
    /// For an arithmetic command, its mnemonic; else the first word after
    /// the mnemonic, if the kind takes one.
    pub arg1: Option<Seq<char>>,
    /// The second word after the mnemonic, if the kind takes one.
    pub arg2: Option<Seq<char>>,
}

/// The command that a cleaned line holds. The line is malformed when it
/// has no kind, or when the number of words after the mnemonic is not the
/// one that the kind takes.
pub open spec fn parse_command(command: Seq<char>) -> Result<CommandView, TranslateError> {
    let words = tokens(command);
    match classify(command) {
        Ok(command_type) if words.len() == 1 + arity(command_type) => Ok(
            CommandView {
                command_type,
                arg1: if command_type == CommandType::ARITHMETIC {
                    Some(words[0])
                } else if arity(command_type) >= 1 {
                    Some(words[1])
                } else {
                    None
                },
                arg2: if arity(command_type) == 2 {
                    Some(words[2])
                } else {
                    None
                },
            },
        ),
        _ => Err(TranslateError::MalformedCommand),
    }
}

/// The characters of an optional string.
pub open spec fn option_view(s: Option<String>) -> Option<Seq<char>> {
    match s {
        Some(s) => Some(s@),
        None => None,
    }
}

/// What a parser holds.
pub struct ParserView {
    /// The commands of the source text.
    pub commands: Seq<Seq<char>>,
    /// How many of them have been classified.
    pub index: nat,
    /// The kind of the command classified last.
    pub command_type: Option<CommandType>,
    /// The first argument of the command classified last.
    pub arg1: Option<Seq<char>>,
    /// The second argument of the command classified last.
    pub arg2: Option<Seq<char>>,
    /// Whether a command is left to classify.
    pub has_more_commands: bool,
}

impl ParserView {
    /// The parser that has classified none of `commands` yet.
    pub open spec fn init(commands: Seq<Seq<char>>) -> ParserView {
        ParserView {
            commands,
            index: 0,
            command_type: None,
            arg1: None,
            arg2: None,
            has_more_commands: commands.len() > 0,
        }
    }

    /// The invariant of a parser.
    pub open spec fn wf(self) -> bool {
        &&& self.index <= self.commands.len()
        &&& self.has_more_commands == (self.index < self.commands.len())
    }

    /// The parser after one more step: unchanged if no command is left, and
    /// else holding the next command, unless that one is malformed.
    pub open spec fn after_advance(self) -> Result<ParserView, TranslateError> {
        if !self.has_more_commands {
            Ok(self)
        } else {
            match parse_command(self.commands[self.index as int]) {
                Ok(command) => Ok(
                    ParserView {
                        commands: self.commands,
                        index: self.index + 1,
                        command_type: Some(command.command_type),
                        arg1: command.arg1,
                        arg2: command.arg2,
                        has_more_commands: self.index + 1 < self.commands.len(),
                    },
                ),
                Err(e) => Err(e),
            }
        }
    }
}

proof fn lemma_comment_start(line: Seq<char>, k: int)
    requires
        0 <= k <= line.len(),
        forall|j: int| 0 <= j < k ==> !is_comment_at(line, j),
    ensures
        comment_start(line) == k + comment_start(line.skip(k)),
    decreases k,
{
    if k == 0 {
        assert(line.skip(0) =~= line);
    } else if line.len() >= 2 {
        assert(!is_comment_at(line, 0));
        assert forall|j: int| 0 <= j < k - 1 implies !is_comment_at(line.skip(1), j) by {
            assert(!is_comment_at(line, j + 1));
        }
        lemma_comment_start(line.skip(1), k - 1);
        assert(line.skip(1).skip(k - 1) =~= line.skip(k));
    }
}

proof fn lemma_trim_start(s: Seq<char>, a: int)
    requires
        0 <= a <= s.len(),
        forall|j: int| 0 <= j < a ==> is_whitespace(#[trigger] s[j]),
        a == s.len() || !is_whitespace(s[a]),
    ensures
        trim_start(s) == s.skip(a),
    decreases a,
{
    if a == 0 {
        assert(s.skip(0) =~= s);
    } else {
        assert(is_whitespace(s[0]));
        assert forall|j: int| 0 <= j < a - 1 implies is_whitespace(#[trigger] s.skip(1)[j]) by {
            assert(is_whitespace(s[j + 1]));
        }
        lemma_trim_start(s.skip(1), a - 1);
        assert(s.skip(1).skip(a - 1) =~= s.skip(a));
    }
}

proof fn lemma_trim_end(s: Seq<char>, b: int)
    requires
        0 <= b <= s.len(),
        forall|j: int| b <= j < s.len() ==> is_whitespace(#[trigger] s[j]),
        b == 0 || !is_whitespace(s[b - 1]),
    ensures
        trim_end(s) == s.take(b),
    decreases s.len() - b,
{
    if b == s.len() {
        assert(s.take(b) =~= s);
    } else {
        assert(is_whitespace(s.last()));
        lemma_trim_end(s.drop_last(), b);
        assert(s.drop_last().take(b) =~= s.take(b));
    }
}

proof fn lemma_word_len(s: Seq<char>, m: int)
    requires
        0 <= m <= s.len(),
        forall|j: int| 0 <= j < m ==> !is_whitespace(#[trigger] s[j]),
        m == s.len() || is_whitespace(s[m]),
    ensures
        word_len(s) == m,
    decreases m,
{
    if m > 0 {
        assert(!is_whitespace(s[0]));
        assert forall|j: int| 0 <= j < m - 1 implies !is_whitespace(#[trigger] s.skip(1)[j]) by {
            assert(!is_whitespace(s[j + 1]));
        }
        lemma_word_len(s.skip(1), m - 1);
    }
}

/// Finds where the comment of a line starts.
fn find_comment(chars: &Vec<char>) -> (res: usize)
    ensures
        res == comment_start(chars@),
{
    let n = chars.len();
    let mut i: usize = 0;
    while i < n && i + 1 < n
        invariant
            i <= n,
            n == chars@.len(),
            forall|j: int| 0 <= j < i ==> !is_comment_at(chars@, j),
        decreases n - i,
    {
        if chars[i] == '/' && chars[i + 1] == '/' {
            proof {
                lemma_comment_start(chars@, i as int);
                assert(is_comment_at(chars@.skip(i as int), 0));
            }
            return i;
        }
        i += 1;
    }
    proof {
        lemma_comment_start(chars@, i as int);
    }
    n
}

/// Cleans one line.
fn clean(line: &str) -> (res: String)
    ensures
        res@ == clean_line(line@),
{
    let chars = chars_of(line);
    let end = find_comment(&chars);
    proof {
        lemma_comment_start_bounds(line@);
    }
    let ghost kept = line@.take(end as int);
    let mut a: usize = 0;
    while a < end && is_whitespace_char(chars[a])
        invariant
            a <= end <= chars.len(),
            chars@ == line@,
            forall|j: int| 0 <= j < a ==> is_whitespace(#[trigger] line@[j]),
        decreases end - a,
    {
        a += 1;
    }
    let mut b: usize = end;
    while b > a && is_whitespace_char(chars[b - 1])
        invariant
            a <= b <= end <= chars.len(),
            chars@ == line@,
            forall|j: int| b <= j < end ==> is_whitespace(#[trigger] line@[j]),
        decreases b,
    {
        b -= 1;
    }
    proof {
        lemma_trim_start(kept, a as int);
        lemma_trim_end(kept.skip(a as int), b - a);
        assert(kept.skip(a as int).take(b - a) =~= line@.subrange(a as int, b as int));
    }
    line.substring_char(a, b).to_owned()
}

/// Splits a text into its words.
pub fn split_words(s: &str) -> (res: Vec<String>)
    ensures
        res.deep_view() == tokens(s@),
{
    let chars = chars_of(s);
    let n = chars.len();
    let mut words: Vec<String> = Vec::new();
    let mut i: usize = 0;
    assert(words.deep_view() + tokens(s@.skip(0)) =~= tokens(s@)) by {
        assert(s@.skip(0) =~= s@);
    }
    while i < n
        invariant
            i <= n,
            n == s@.len(),
            chars@ == s@,
            tokens(s@) == words.deep_view() + tokens(s@.skip(i as int)),
        decreases n - i,
    {
        let ghost rest = s@.skip(i as int);
        if is_whitespace_char(chars[i]) {
            assert(rest.skip(1) =~= s@.skip(i + 1));
            i += 1;
        } else {
            let start = i;
            while i < n && !is_whitespace_char(chars[i])
                invariant
                    start <= i <= n,
                    n == s@.len(),
                    chars@ == s@,
                    forall|j: int| start <= j < i ==> !is_whitespace(#[trigger] s@[j]),
                decreases n - i,
            {
                i += 1;
            }
            proof {
                lemma_word_len(rest, i - start);
                assert(rest.take(i - start) =~= s@.subrange(start as int, i as int));
                assert(rest.skip(i - start) =~= s@.skip(i as int));
            }
            let ghost before = words.deep_view();
            push_line(&mut words, s.substring_char(start, i));
            assert(before + (seq![rest.take(i - start)] + tokens(rest.skip(i - start)))
                =~= words.deep_view() + tokens(s@.skip(i as int)));
        }
    }
    assert(words.deep_view() + tokens(s@.skip(i as int)) =~= words.deep_view());
    words
}

/// The kind of command that a mnemonic selects.
pub fn command_type_for(mnemonic: &str) -> (res: Option<CommandType>)
    ensures
        res == command_type_of(mnemonic@),
{
    if same_text(mnemonic, "add") || same_text(mnemonic, "sub") || same_text(mnemonic, "neg")
        || same_text(mnemonic, "eq") || same_text(mnemonic, "gt") || same_text(mnemonic, "lt")
        || same_text(mnemonic, "and") || same_text(mnemonic, "or") || same_text(
        mnemonic,
        "not",
    ) {
        Some(CommandType::ARITHMETIC)
    } else if same_text(mnemonic, "push") {
        Some(CommandType::PUSH)
    } else if same_text(mnemonic, "pop") {
        Some(CommandType::POP)
    } else if same_text(mnemonic, "label") {
        Some(CommandType::LABEL)
    } else if same_text(mnemonic, "goto") {
        Some(CommandType::GOTO)
    } else if same_text(mnemonic, "if-goto") {
        Some(CommandType::IF)
    } else if same_text(mnemonic, "function") {
        Some(CommandType::FUNCTION)
    } else if same_text(mnemonic, "return") {
        Some(CommandType::RETURN)
    } else if same_text(mnemonic, "call") {
        Some(CommandType::CALL)
    } else {
        None
    }
}

/// How many words follow the mnemonic of a command of this kind.
pub fn arity_of(command_type: CommandType) -> (res: usize)
    ensures
        res == arity(command_type),
{
    match command_type {
        CommandType::ARITHMETIC | CommandType::RETURN => 0,
        CommandType::LABEL | CommandType::GOTO | CommandType::IF => 1,
        CommandType::PUSH | CommandType::POP | CommandType::FUNCTION | CommandType::CALL => 2,
    }
}

/// Walks through the commands of a source text and classifies them one by
/// one.
pub struct Parser {
    has_more_commands: bool,
    command_type: Option<CommandType>,
    arg1: Option<String>,
    arg2: Option<String>,
    commands: Vec<String>,
    index: usize,
}

impl View for Parser {
    type V = ParserView;

    closed spec fn view(&self) -> ParserView {
        ParserView {
            commands: self.commands.deep_view(),
            index: self.index as nat,
            command_type: self.command_type,
            arg1: option_view(self.arg1),
            arg2: option_view(self.arg2),
            has_more_commands: self.has_more_commands,
        }
    }
}

impl Parser {
    /// Whether the parser is in a state that its own methods lead to.
    pub open spec fn wf(&self) -> bool {
        self@.wf()
    }

    /// A parser for the commands that stand in the lines `commands`.
    pub fn new(commands: Vec<String>) -> (res: Parser)
        ensures
            res.wf(),
            res@ == ParserView::init(clean_lines(commands.deep_view())),
    {
        let actual_commands = Parser::remove_unnecessary_parts(commands);
        Parser {
            has_more_commands: actual_commands.len() > 0,
            commands: actual_commands,
            index: 0,
            command_type: None,
            arg1: None,
            arg2: None,
        }
    }

    /// Whether a command is left to classify.
    pub fn has_more_commands(&self) -> (res: bool)
        ensures
            res == self@.has_more_commands,
    {
        self.has_more_commands
    }

    /// The kind of the command classified last.
    pub fn command_type(&self) -> (res: Option<CommandType>)
        ensures
            res == self@.command_type,
    {
        self.command_type
    }

    /// The first argument of the command classified last.
    pub fn arg1(&self) -> (res: &Option<String>)
        ensures
            option_view(*res) == self@.arg1,
    {
        &self.arg1
    }

    /// The second argument of the command classified last.
    pub fn arg2(&self) -> (res: &Option<String>)
        ensures
            option_view(*res) == self@.arg2,
    {
        &self.arg2
    }

    /// The commands of the source text.
    pub fn commands(&self) -> (res: &Vec<String>)
        ensures
            res.deep_view() == self@.commands,
    {
        &self.commands
    }

    /// How many commands have been classified.
    pub fn index(&self) -> (res: usize)
        ensures
            res == self@.index,
    {
        self.index
    }

    /// Classifies the next command, if one is left. A malformed command
    /// is reported and leaves the parser as it was.
    pub fn advance(&mut self) -> (res: Result<(), TranslateError>)
        requires
            old(self).wf(),
        ensures
            final(self).wf(),
            match res {
                Ok(()) => old(self)@.after_advance() == Ok::<ParserView, TranslateError>(
                    final(self)@,
                ),
                Err(e) => old(self)@.after_advance() == Err::<ParserView, TranslateError>(e)
                    && final(self)@ == old(self)@,
            },
    {
        if self.has_more_commands {
            assert(self.commands.deep_view().len() == self.commands.len());
            let mut words = split_words(self.commands[self.index].as_str());
            let ghost all = words.deep_view();
            assert(all == tokens(self@.commands[self.index as int]));
            let command_type = match Parser::first_word_kind(&words) {
                Ok(command_type) => command_type,
                Err(e) => {
                    return Err(e);
                },
            };
            let taken = arity_of(command_type);
            if words.len() != 1 + taken {
                return Err(TranslateError::MalformedCommand);
            }
            self.clear();
            if taken == 2 {
                self.arg2 = words.pop();
            }
            if taken >= 1 || command_type == CommandType::ARITHMETIC {
                self.arg1 = words.pop();
            }
            self.command_type = Some(command_type);
            self.index += 1;
            self.has_more_commands = self.commands.len() > self.index;
        }
        Ok(())
    }

    /// Forgets the command classified last.
    fn clear(&mut self)
        ensures
            final(self).commands == old(self).commands,
            final(self).index == old(self).index,
            final(self).has_more_commands == old(self).has_more_commands,
            final(self).command_type.is_none(),
            final(self).arg1.is_none(),
            final(self).arg2.is_none(),
    {
        self.command_type = None;
        self.arg1 = None;
        self.arg2 = None;
    }

    /// The kind that the first of `words` selects.
    fn first_word_kind(words: &Vec<String>) -> (res: Result<CommandType, TranslateError>)
        ensures
            res == if words@.len() == 0 {
                Err::<CommandType, TranslateError>(TranslateError::MalformedCommand)
            } else {
                match command_type_of(words.deep_view()[0]) {
                    Some(command_type) => Ok(command_type),
                    None => Err(TranslateError::MalformedCommand),
                }
            },
    {
        if words.len() == 0 {
            return Err(TranslateError::MalformedCommand);
        }
        match command_type_for(words[0].as_str()) {
            Some(command_type) => Ok(command_type),
            None => Err(TranslateError::MalformedCommand),
        }
    }

    /// The kind of the command that stands in `command`.
    pub fn classify_command(command: &str) -> (res: Result<CommandType, TranslateError>)
        ensures
            res == classify(command@),
    {
        let words = split_words(command);
        Parser::first_word_kind(&words)
    }

    /// Cleans one line: takes out its comment and the white space around
    /// the rest.
    pub fn remove_comments(command: String) -> (res: String)
        ensures
            res@ == clean_line(command@),
    {
        clean(command.as_str())
    }

    /// The commands that stand in `lines`.
    pub fn remove_unnecessary_parts(lines: Vec<String>) -> (res: Vec<String>)
        ensures
            res.deep_view() == clean_lines(lines.deep_view()),
    {
        let mut new_commands: Vec<String> = Vec::new();
        let mut i: usize = 0;
        let ghost texts = lines.deep_view();
        assert(texts.take(0) =~= Seq::<Seq<char>>::empty());
        while i < lines.len()
            invariant
                i <= lines.len(),
                texts == lines.deep_view(),
                new_commands.deep_view() == clean_lines(texts.take(i as int)),
            decreases lines.len() - i,
        {
            let command = clean(lines[i].as_str());
            proof {
                assert(texts.take(i + 1).drop_last() =~= texts.take(i as int));
                assert(texts.take(i + 1).last() == lines[i as int]@);
            }
            if !command.as_str().is_empty() {
                push_line(&mut new_commands, command.as_str());
            }
            i += 1;
        }
        assert(texts.take(i as int) =~= texts);
        new_commands
    }
}

} // verus!
