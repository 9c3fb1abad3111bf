//! # Command Tokenization
//!
//! The tokenizer breaks a line of text into tokens, each either a run of
//! whitespace or a word. A span in single or double quotes is one word,
//! quotes included, and a backslash takes the character after it into the
//! word. Each token carries the byte offsets of its first and last byte in
//! the line.
//!
//! The scanner is a shift/reduce machine over the classes of the characters.
//! [`transition`] is its table; [`lex`] says which tokens a line has.

use crate::util::byte_len;
use crate::util::byte_offset;
use crate::util::lemma_byte_offset_monotone;
use crate::util::lemma_byte_offset_step;
use crate::util::slice_between;
use crate::util::utf8_width;
use vstd::prelude::*;
use vstd::std_specs::iter::IteratorSpec;

verus! {

/// A position within a body of text.
#[derive(Clone, Copy, Debug, PartialEq, Eq, Structural)]
pub struct SourceOffset {
    /// The offset of this position in bytes from the start of the text.
    pub char: usize,
    /// The line number of this position.
    pub line: usize,
    /// The column of this position.
    pub column: usize,
}

impl SourceOffset {
    /// Construct a `SourceOffset`.
    pub fn new(char: usize, line: usize, column: usize) -> (offset: SourceOffset)
        ensures
            offset == (SourceOffset { char, line, column }),
    {
        SourceOffset { char, line, column }
    }
}

/// A range within a body of text, from the first byte to the last one.
#[derive(Clone, Copy, Debug, PartialEq, Eq, Structural)]
pub struct SourceLocation {
    /// The start of the range.
    pub start: SourceOffset,
    /// The end of the range.
    pub end: SourceOffset,
}

impl SourceLocation {
    /// Construct a `SourceLocation`.
    pub fn new(start: SourceOffset, end: SourceOffset) -> (location: SourceLocation)
        ensures
            location == (SourceLocation { start, end }),
    {
        SourceLocation { start, end }
    }
}

/// The reasons for which a line cannot be tokenized.
#[derive(Clone, Copy, Debug, PartialEq, Eq, Structural)]
pub enum TokenizerError {
    /// The character at this byte offset may not follow a backslash.
    CharacterNotAllowedHere(usize),
    /// The scanner was asked to go on from the state `Special`.
    SpecialNotYetImplemented(usize),
    /// The line ends right after a backslash.
    EscapingBackslashAtEndOfInput,
    /// The line ends inside double quotes.
    UnclosedDoubleQuote,
    /// The line ends inside single quotes.
    UnclosedSingleQuote,
}

impl TokenizerError {
    /// A sentence that describes the error.
    pub fn description(&self) -> (text: &'static str)
        ensures
            text@ == self.description_text(),
    {
        match self {
            TokenizerError::CharacterNotAllowedHere(_) => "Character not allowed here",
            TokenizerError::SpecialNotYetImplemented(_) => "Special not yet implemented",
            TokenizerError::EscapingBackslashAtEndOfInput => "Escaping backlash at end of input",
            TokenizerError::UnclosedDoubleQuote => "Unclosed double quote at end of input",
            TokenizerError::UnclosedSingleQuote => "Unclosed single quote at end of input",
        }
    }

    /// The sentence that `description` returns.
    pub open spec fn description_text(&self) -> Seq<char> {
        match self {
            TokenizerError::CharacterNotAllowedHere(_) => "Character not allowed here"@,
            TokenizerError::SpecialNotYetImplemented(_) => "Special not yet implemented"@,
            TokenizerError::EscapingBackslashAtEndOfInput => "Escaping backlash at end of input"@,
            TokenizerError::UnclosedDoubleQuote => "Unclosed double quote at end of input"@,
            TokenizerError::UnclosedSingleQuote => "Unclosed single quote at end of input"@,
        }
    }
}

/// The role that a token plays: `Whitespace` or `Word`.
#[derive(Clone, Copy, Debug, PartialEq, Eq, Structural)]
pub enum TokenType {
    /// The token is a run of whitespace.
    Whitespace,
    /// The token is a word: a bare word, a quoted span or a reserved
    /// punctuation character.
    Word,
}

/// A token from a body of text.
///
/// The lifetime parameter `'text` is that of the text that was tokenized:
/// the token's text is a slice of it.
#[derive(Clone, Copy, Debug, PartialEq)]
pub struct Token<'text> {
    /// The text of the token.
    pub text: &'text str,
    /// The type of the token (`Whitespace` or `Word`).
    pub token_type: TokenType,
    /// The location of the token in the source body of text.
    pub location: SourceLocation,
}

impl<'text> Token<'text> {
    /// Construct a `Token`.
    pub fn new(text: &'text str, token_type: TokenType, location: SourceLocation) -> (token:
        Token<'text>)
        ensures
            token.text == text,
            token.token_type == token_type,
            token.location == location,
    {
        Token { text, token_type, location }
    }
}

/// The classes of characters that the scanner tells apart.
#[derive(Clone, Copy, Debug, PartialEq, Eq, Structural)]
pub enum CharClass {
    /// A whitespace character.
    Whitespace,
    /// One of the reserved punctuation characters `;`, `?` and `|`.
    Special,
    /// The double quote.
    DoubleQuote,
    /// The single quote.
    SingleQuote,
    /// The backslash.
    Backslash,
    /// A letter or a digit.
    Alphanumeric,
    /// Any other character.
    Other,
}

/// The states of the scanner.
#[derive(Clone, Copy, Debug, PartialEq, Eq, Structural)]
pub enum State {
    /// No token is open.
    Initial,
    /// A reserved punctuation character was taken; its token closes at once.
    Special,
    /// A run of whitespace is open.
    Whitespace,
    /// A span in double quotes is open.
    Doublequote,
    /// A backslash was taken inside double quotes.
    DoublequoteBackslash,
    /// A span in single quotes is open.
    Singlequote,
    /// A backslash was taken inside single quotes.
    SinglequoteBackslash,
    /// A bare word is open.
    Word,
    /// A backslash was taken inside a bare word.
    WordBackslash,
}

/// What the scanner does with one character.
#[derive(Clone, Copy, Debug, PartialEq, Eq, Structural)]
pub struct Transition {
    /// The open token is closed before the character is taken.
    pub flush: bool,
    /// The state in which the character is taken into the open token.
    pub next: State,
    /// The token that holds the character is closed right after it.
    pub emit: bool,
}

/// What `char::is_whitespace` returns for `c`.
pub uninterp spec fn char_is_whitespace(c: char) -> bool;

/// What `char::is_alphanumeric` returns for `c`.
pub uninterp spec fn char_is_alphanumeric(c: char) -> bool;

/// `char::is_whitespace` of std: whether the character has the Unicode
/// property `White_Space`. The result depends on the character alone and is
/// given the name `char_is_whitespace`; nothing more is claimed of it.
pub assume_specification[ char::is_whitespace ](c: char) -> (r: bool)
    ensures
        r == char_is_whitespace(c),
;

/// `char::is_alphanumeric` of std: whether the character is alphabetic or
/// numeric in Unicode's terms. The result depends on the character alone and
/// is given the name `char_is_alphanumeric`; nothing more is claimed of it.
pub assume_specification[ char::is_alphanumeric ](c: char) -> (r: bool)
    ensures
        r == char_is_alphanumeric(c),
;

/// The class of a character. Whitespace is asked for first, then the
/// characters that the scanner knows by name, then letters and digits.
pub open spec fn class_of(c: char) -> CharClass {
    if char_is_whitespace(c) {
        CharClass::Whitespace
    } else if c == ';' || c == '?' || c == '|' {
        CharClass::Special
    } else if c == '"' {
        CharClass::DoubleQuote
    } else if c == '\'' {
        CharClass::SingleQuote
    } else if c == '\\' {
        CharClass::Backslash
    } else if char_is_alphanumeric(c) {
        CharClass::Alphanumeric
    } else {
        CharClass::Other
    }
}

/// The class of a character.
pub fn classify(c: char) -> (class: CharClass)
    ensures
        class == class_of(c),
{
    if c.is_whitespace() {
        CharClass::Whitespace
    } else if c == ';' || c == '?' || c == '|' {
        CharClass::Special
    } else if c == '"' {
        CharClass::DoubleQuote
    } else if c == '\'' {
        CharClass::SingleQuote
    } else if c == '\\' {
        CharClass::Backslash
    } else if c.is_alphanumeric() {
        CharClass::Alphanumeric
    } else {
        CharClass::Other
    }
}

/// The type of the token that is open in `state`.
pub open spec fn kind_of(state: State) -> TokenType {
    if state == State::Whitespace {
        TokenType::Whitespace
    } else {
        TokenType::Word
    }
}

/// How a character of class `class` opens a token when none is open.
pub open spec fn initial_of(class: CharClass) -> Transition {
    match class {
        CharClass::Whitespace => Transition { flush: false, next: State::Whitespace, emit: false },
        CharClass::Special => Transition { flush: false, next: State::Special, emit: true },
        CharClass::DoubleQuote => Transition {
            flush: false,
            next: State::Doublequote,
            emit: false,
        },
        CharClass::SingleQuote => Transition {
            flush: false,
            next: State::Singlequote,
            emit: false,
        },
        CharClass::Backslash => Transition {
            flush: false,
            next: State::WordBackslash,
            emit: false,
        },
        _ => Transition { flush: false, next: State::Word, emit: false },
    }
}

/// The same step, after the open token was closed.
pub open spec fn flushed(t: Transition) -> Transition {
    Transition { flush: true, next: t.next, emit: t.emit }
}

/// The scanner's table: what happens to a character of class `class`, found
/// at byte offset `offset`, in state `state`.
///
/// - With no token open, the character opens one.
/// - Whitespace goes on with whitespace; anything else closes the run and
///   opens a token.
/// - A bare word goes on with a backslash and with any character that is not
///   whitespace, reserved or a quote; those close the word and open a token.
/// - After a backslash in a bare word, only a letter, a digit or whitespace
///   may follow.
/// - A quoted span goes on to its closing quote, which closes the token;
///   after a backslash in it, whitespace may not follow.
/// - A reserved character is a token by itself. Nothing can follow in the
///   state `Special`, which the scanner therefore leaves at once.
pub open spec fn transition_of(state: State, class: CharClass, offset: usize) -> Result<
    Transition,
    TokenizerError,
> {
    match state {
        State::Initial => Ok(initial_of(class)),
        State::Whitespace => if class == CharClass::Whitespace {
            Ok(Transition { flush: false, next: State::Whitespace, emit: false })
        } else {
            Ok(flushed(initial_of(class)))
        },
        State::Word => match class {
            CharClass::Backslash => Ok(
                Transition { flush: false, next: State::WordBackslash, emit: false },
            ),
            CharClass::Alphanumeric | CharClass::Other => Ok(
                Transition { flush: false, next: State::Word, emit: false },
            ),
            _ => Ok(flushed(initial_of(class))),
        },
        State::WordBackslash => if class == CharClass::Alphanumeric || class
            == CharClass::Whitespace {
            Ok(Transition { flush: false, next: State::Word, emit: false })
        } else {
            Err(TokenizerError::CharacterNotAllowedHere(offset))
        },
        State::Doublequote => match class {
            CharClass::DoubleQuote => Ok(
                Transition { flush: false, next: State::Doublequote, emit: true },
            ),
            CharClass::Backslash => Ok(
                Transition { flush: false, next: State::DoublequoteBackslash, emit: false },
            ),
            _ => Ok(Transition { flush: false, next: State::Doublequote, emit: false }),
        },
        State::DoublequoteBackslash => if class != CharClass::Whitespace {
            Ok(Transition { flush: false, next: State::Doublequote, emit: false })
        } else {
            Err(TokenizerError::CharacterNotAllowedHere(offset))
        },
        State::Singlequote => match class {
            CharClass::SingleQuote => Ok(
                Transition { flush: false, next: State::Singlequote, emit: true },
            ),
            CharClass::Backslash => Ok(
                Transition { flush: false, next: State::SinglequoteBackslash, emit: false },
            ),
            _ => Ok(Transition { flush: false, next: State::Singlequote, emit: false }),
        },
        State::SinglequoteBackslash => if class != CharClass::Whitespace {
            Ok(Transition { flush: false, next: State::Singlequote, emit: false })
        } else {
            Err(TokenizerError::CharacterNotAllowedHere(offset))
        },
        State::Special => Err(TokenizerError::SpecialNotYetImplemented(offset)),
    }
}

/// What the end of the line means in `state`: `Ok(true)` where an open token
/// is closed, `Ok(false)` where none is open, and the error where the line
/// may not end. `len` is the length of the line in bytes.
pub open spec fn finish_of(state: State, len: usize) -> Result<bool, TokenizerError> {
    match state {
        State::Initial => Ok(false),
        State::Word | State::Whitespace => Ok(true),
        State::WordBackslash => Err(TokenizerError::EscapingBackslashAtEndOfInput),
        State::Doublequote => Err(TokenizerError::UnclosedDoubleQuote),
        State::Singlequote => Err(TokenizerError::UnclosedSingleQuote),
        State::DoublequoteBackslash | State::SinglequoteBackslash => Err(
            TokenizerError::EscapingBackslashAtEndOfInput,
        ),
        State::Special => Err(
            TokenizerError::SpecialNotYetImplemented(
                if len > 0 {
                    (len - 1) as usize
                } else {
                    0
                },
            ),
        ),
    }
}

/// How a character of class `class` opens a token when none is open.
pub fn initial(class: CharClass) -> (t: Transition)
    ensures
        t == initial_of(class),
{
    match class {
        CharClass::Whitespace => Transition { flush: false, next: State::Whitespace, emit: false },
        CharClass::Special => Transition { flush: false, next: State::Special, emit: true },
        CharClass::DoubleQuote => Transition {
            flush: false,
            next: State::Doublequote,
            emit: false,
        },
        CharClass::SingleQuote => Transition {
            flush: false,
            next: State::Singlequote,
            emit: false,
        },
        CharClass::Backslash => Transition {
            flush: false,
            next: State::WordBackslash,
            emit: false,
        },
        _ => Transition { flush: false, next: State::Word, emit: false },
    }
}

/// The scanner's table, as `transition_of` defines it.
pub fn transition(state: State, class: CharClass, offset: usize) -> (r: Result<
    Transition,
    TokenizerError,
>)
    ensures
        r == transition_of(state, class, offset),
{
    let stay = Transition { flush: false, next: state, emit: false };
    match state {
        State::Initial => Ok(initial(class)),
        State::Whitespace => match class {
            CharClass::Whitespace => Ok(stay),
            _ => {
                let t = initial(class);
                Ok(Transition { flush: true, next: t.next, emit: t.emit })
            },
        },
        State::Word => match class {
            CharClass::Backslash => Ok(
                Transition { flush: false, next: State::WordBackslash, emit: false },
            ),
            CharClass::Alphanumeric | CharClass::Other => Ok(stay),
            _ => {
                let t = initial(class);
                Ok(Transition { flush: true, next: t.next, emit: t.emit })
            },
        },
        State::WordBackslash => match class {
            CharClass::Alphanumeric | CharClass::Whitespace => Ok(
                Transition { flush: false, next: State::Word, emit: false },
            ),
            _ => Err(TokenizerError::CharacterNotAllowedHere(offset)),
        },
        State::Doublequote => match class {
            CharClass::DoubleQuote => Ok(Transition { flush: false, next: state, emit: true }),
            CharClass::Backslash => Ok(
                Transition { flush: false, next: State::DoublequoteBackslash, emit: false },
            ),
            _ => Ok(stay),
        },
        State::DoublequoteBackslash => match class {
            CharClass::Whitespace => Err(TokenizerError::CharacterNotAllowedHere(offset)),
            _ => Ok(Transition { flush: false, next: State::Doublequote, emit: false }),
        },
        State::Singlequote => match class {
            CharClass::SingleQuote => Ok(Transition { flush: false, next: state, emit: true }),
            CharClass::Backslash => Ok(
                Transition { flush: false, next: State::SinglequoteBackslash, emit: false },
            ),
            _ => Ok(stay),
        },
        State::SinglequoteBackslash => match class {
            CharClass::Whitespace => Err(TokenizerError::CharacterNotAllowedHere(offset)),
            _ => Ok(Transition { flush: false, next: State::Singlequote, emit: false }),
        },
        State::Special => Err(TokenizerError::SpecialNotYetImplemented(offset)),
    }
}

/// What the end of a line of `len` bytes means in `state`.
pub fn finish(state: State, len: usize) -> (r: Result<bool, TokenizerError>)
    ensures
        r == finish_of(state, len),
{
    match state {
        State::Initial => Ok(false),
        State::Word | State::Whitespace => Ok(true),
        State::WordBackslash => Err(TokenizerError::EscapingBackslashAtEndOfInput),
        State::Doublequote => Err(TokenizerError::UnclosedDoubleQuote),
        State::Singlequote => Err(TokenizerError::UnclosedSingleQuote),
        State::DoublequoteBackslash | State::SinglequoteBackslash => Err(
            TokenizerError::EscapingBackslashAtEndOfInput,
        ),
        State::Special => Err(
            TokenizerError::SpecialNotYetImplemented(
                if len > 0 {
                    len - 1
                } else {
                    0
                },
            ),
        ),
    }
}

/// A token of a line, by the indices of its characters: those from `start`
/// up to, not including, `end`.
pub struct Span {
    /// The index of the token's first character.
    pub start: int,
    /// The index after that of the token's last character.
    pub end: int,
    /// The type of the token.
    pub kind: TokenType,
}

/// The scanner after some characters of a line: its state, where the open
/// token starts, and the tokens closed so far.
pub struct Scan {
    /// The state of the scanner.
    pub state: State,
    /// The index of the first character of the open token. It means nothing
    /// in the state `Initial`.
    pub start: int,
    /// The tokens closed so far.
    pub spans: Seq<Span>,
}

/// The scanner before the first character.
pub open spec fn scan_start() -> Scan {
    Scan { state: State::Initial, start: 0, spans: Seq::empty() }
}

/// Character `n` is taken into the open token, or opens one, and the state
/// becomes `next`.
pub open spec fn shifted(s: Scan, n: int, next: State) -> Scan {
    Scan {
        state: next,
        start: if s.state == State::Initial {
            n
        } else {
            s.start
        },
        spans: s.spans,
    }
}

/// The open token is closed before character `n`.
pub open spec fn reduced(s: Scan, n: int) -> Scan {
    Scan {
        state: State::Initial,
        start: 0,
        spans: s.spans.push(Span { start: s.start, end: n, kind: kind_of(s.state) }),
    }
}

/// The scanner `s` after the step `t` on character `n`.
pub open spec fn step(s: Scan, t: Transition, n: int) -> Scan {
    let flushed = if t.flush {
        reduced(s, n)
    } else {
        s
    };
    let taken = shifted(flushed, n, t.next);
    if t.emit {
        reduced(taken, n + 1)
    } else {
        taken
    }
}

/// The scanner after the first `n` characters of `chars`, or the error that
/// one of them gave.
pub open spec fn scan(chars: Seq<char>, n: int) -> Result<Scan, TokenizerError>
    decreases n,
{
    if n <= 0 {
        Ok(scan_start())
    } else {
        match scan(chars, n - 1) {
            Err(e) => Err(e),
            Ok(s) => match transition_of(
                s.state,
                class_of(chars[n - 1]),
                byte_offset(chars, n - 1) as usize,
            ) {
                Err(e) => Err(e),
                Ok(t) => Ok(step(s, t, n - 1)),
            },
        }
    }
}

/// The tokens of the line `chars`, or the reason for which it has none.
pub open spec fn lex(chars: Seq<char>) -> Result<Seq<Span>, TokenizerError> {
    match scan(chars, chars.len() as int) {
        Err(e) => Err(e),
        Ok(s) => match finish_of(s.state, byte_len(chars) as usize) {
            Err(e) => Err(e),
            Ok(flush) => Ok(
                if flush {
                    reduced(s, chars.len() as int).spans
                } else {
                    s.spans
                },
            ),
        },
    }
}

/// The location of a token whose first byte is at offset `first` and whose
/// last byte is at offset `last`. The line is 0 and the column is the offset.
pub open spec fn location_of(first: usize, last: usize) -> SourceLocation {
    SourceLocation {
        start: SourceOffset { char: first, line: 0, column: first },
        end: SourceOffset { char: last, line: 0, column: last },
    }
}

/// `token` is the token of the line `chars` that `span` describes: its text
/// is the span's characters, and its location runs from the first byte of the
/// first of them to the last byte of the last.
pub open spec fn is_token_of(token: Token, chars: Seq<char>, span: Span) -> bool {
    &&& token.text@ == chars.subrange(span.start, span.end)
    &&& token.token_type == span.kind
    &&& token.location == location_of(
        byte_offset(chars, span.start) as usize,
        (byte_offset(chars, span.end) - 1) as usize,
    )
}

/// `tokens` are the tokens of the line `chars` that `spans` describe.
pub open spec fn are_tokens_of(tokens: Seq<Token>, chars: Seq<char>, spans: Seq<Span>) -> bool {
    &&& tokens.len() == spans.len()
    &&& forall|k: int| 0 <= k < spans.len() ==> is_token_of(#[trigger] tokens[k], chars, spans[k])
}

struct Tokenizer<'text> {
    text: &'text str,
    state: State,
    token_type: Option<TokenType>,
    token_start: usize,
    token_end: usize,
    tokens: Vec<Token<'text>>,
}

impl<'text> Tokenizer<'text> {
    /// The tokenizer stands for the scanner `s` after `n` characters of its
    /// text.
    spec fn models(&self, n: int, s: Scan) -> bool {
        let chars = self.text@;
        &&& 0 <= n <= chars.len()
        &&& self.state == s.state
        &&& are_tokens_of(self.tokens@, chars, s.spans)
        &&& if s.state == State::Initial {
            self.token_type is None
        } else {
            &&& self.token_type == Some(kind_of(s.state))
            &&& 0 <= s.start < n
            &&& self.token_start == byte_offset(chars, s.start)
            &&& self.token_end + 1 == byte_offset(chars, n)
        }
    }

    fn new(text: &'text str) -> (tokenizer: Tokenizer<'text>)
        ensures
            tokenizer.text == text,
            tokenizer.models(0, scan_start()),
    {
        Tokenizer {
            text,
            state: State::Initial,
            token_type: None,
            token_start: 0,
            token_end: 0,
            tokens: Vec::new(),
        }
    }

    fn reset(&mut self)
        ensures
            final(self).text == old(self).text,
            final(self).tokens == old(self).tokens,
            final(self).state == State::Initial,
            final(self).token_type is None,
            final(self).token_start == 0,
            final(self).token_end == 0,
    {
        self.state = State::Initial;
        self.token_type = None;
        self.token_start = 0;
        self.token_end = 0;
    }

    /// Closes the open token: the bytes from `token_start` to `token_end`
    /// become a token, and no token is open.
    fn reduce(&mut self, Ghost(n): Ghost<int>, Ghost(s): Ghost<Scan>)
        requires
            old(self).models(n, s),
            s.state != State::Initial,
        ensures
            final(self).text == old(self).text,
            final(self).models(n, reduced(s, n)),
    {
        proof {
            lemma_byte_offset_monotone(self.text@, s.start, n);
            lemma_byte_offset_monotone(self.text@, n, self.text@.len() as int);
        }
        let bound = self.text.as_bytes().len();
        let token_text = slice_between(
            self.text,
            self.token_start,
            self.token_end + 1,
            Ghost(s.start),
            Ghost(n),
        );
        let loc = SourceLocation::new(
            SourceOffset::new(self.token_start, 0, self.token_start),
            SourceOffset::new(self.token_end, 0, self.token_end),
        );
        let token = Token::new(token_text, self.token_type.unwrap(), loc);
        self.tokens.push(token);
        self.reset();
        proof {
            let span = Span { start: s.start, end: n, kind: kind_of(s.state) };
            assert(is_token_of(token, self.text@, span));
            assert forall|k: int| 0 <= k < reduced(s, n).spans.len() implies is_token_of(
                #[trigger] self.tokens@[k],
                self.text@,
                reduced(s, n).spans[k],
            ) by {
                if k < s.spans.len() {
                    assert(self.tokens@[k] == old(self).tokens@[k]);
                }
            }
        }
    }

    /// Takes the character whose first byte is at `offset` and whose last
    /// byte is at `end` into the open token, and goes to `next_state`.
    fn shift(
        &mut self,
        offset: usize,
        end: usize,
        next_state: State,
        Ghost(n): Ghost<int>,
        Ghost(s): Ghost<Scan>,
    )
        requires
            old(self).models(n, s),
            n < old(self).text@.len(),
            offset == byte_offset(old(self).text@, n),
            end + 1 == byte_offset(old(self).text@, n + 1),
            next_state != State::Initial,
            s.state != State::Initial ==> kind_of(next_state) == kind_of(s.state),
        ensures
            final(self).text == old(self).text,
            final(self).models(n + 1, shifted(s, n, next_state)),
    {
        self.recognize(offset, next_state);
        self.token_end = end;
        self.state = next_state;
    }

    /// Opens a token at `offset` if none is open. A token that opens with
    /// whitespace is whitespace; any other is a word.
    fn recognize(&mut self, offset: usize, next_state: State)
        ensures
            final(self).text == old(self).text,
            final(self).tokens == old(self).tokens,
            final(self).state == old(self).state,
            final(self).token_end == old(self).token_end,
            old(self).token_type is Some ==> final(self).token_type == old(self).token_type
                && final(self).token_start == old(self).token_start,
            old(self).token_type is None ==> final(self).token_type == Some(kind_of(next_state))
                && final(self).token_start == offset,
    {
        if self.token_type.is_none() {
            self.token_type = if next_state == State::Whitespace {
                Some(TokenType::Whitespace)
            } else {
                Some(TokenType::Word)
            };
            self.token_start = offset;
        }
    }

    /// Runs the scanner over the whole text.
    fn tokenize(&mut self) -> (r: Result<(), TokenizerError>)
        requires
            old(self).models(0, scan_start()),
        ensures
            final(self).text == old(self).text,
            match r {
                Ok(_) => lex(old(self).text@) matches Ok(spans) && are_tokens_of(
                    final(self).tokens@,
                    old(self).text@,
                    spans,
                ),
                Err(e) => lex(old(self).text@) == Err::<Seq<Span>, TokenizerError>(e),
            },
    {
        broadcast use vstd::string::group_string_axioms;

        let text = self.text;
        let total = text.as_bytes().len();
        let mut chars = text.chars();
        let mut pos: usize = 0;
        let ghost mut n: int = 0;
        let ghost mut s = scan_start();
        proof {
            lemma_byte_offset_monotone(text@, 0, 0);
        }
        loop
            invariant
                self.text == text,
                text == old(self).text,
                total == byte_len(text@),
                0 <= n <= text@.len(),
                pos == byte_offset(text@, n),
                chars.remaining() == text@.skip(n),
                scan(text@, n) == Ok::<Scan, TokenizerError>(s),
                self.models(n, s),
                s.state != State::Special,
            ensures
                n == text@.len(),
            decreases text@.len() - n,
        {
            match chars.next() {
                None => {
                    break ;
                },
                Some(c) => {
                    proof {
                        lemma_byte_offset_step(text@, n);
                        lemma_byte_offset_monotone(text@, n + 1, text@.len() as int);
                    }
                    let width = utf8_width(c);
                    let last = pos + width - 1;
                    match transition(self.state, classify(c), pos) {
                        Err(e) => {
                            proof {
                                assert(c == text@[n]);
                                assert(scan(text@, n + 1) == Err::<Scan, TokenizerError>(e));
                                lemma_scan_error_persists(text@, n + 1, text@.len() as int);
                            }
                            return Err(e);
                        },
                        Ok(t) => {
                            if t.flush {
                                self.reduce(Ghost(n), Ghost(s));
                                proof {
                                    s = reduced(s, n);
                                }
                            }
                            self.shift(pos, last, t.next, Ghost(n), Ghost(s));
                            proof {
                                s = shifted(s, n, t.next);
                            }
                            if t.emit {
                                self.reduce(Ghost(n + 1), Ghost(s));
                                proof {
                                    s = reduced(s, n + 1);
                                }
                            }
                        },
                    }
                    pos = pos + width;
                    proof {
                        n = n + 1;
                    }
                },
            }
        }
        match finish(self.state, total) {
            Err(e) => Err(e),
            Ok(flush) => {
                if flush {
                    self.reduce(Ghost(n), Ghost(s));
                }
                Ok(())
            },
        }
    }
}

/// Once a character has given an error, the scan stays at that error.
pub proof fn lemma_scan_error_persists(chars: Seq<char>, n: int, m: int)
    requires
        n <= m,
        scan(chars, n) is Err,
    ensures
        scan(chars, m) == scan(chars, n),
    decreases m - n,
{
    if n < m {
        lemma_scan_error_persists(chars, n, m - 1);
    }
}

/// The characters of the tokens `spans` of the line `chars`, one token after
/// the other.
pub open spec fn joined(chars: Seq<char>, spans: Seq<Span>) -> Seq<char>
    decreases spans.len(),
{
    if spans.len() == 0 {
        Seq::empty()
    } else {
        joined(chars, spans.drop_last()) + chars.subrange(spans.last().start, spans.last().end)
    }
}

/// The texts of `tokens`, one after the other.
pub open spec fn joined_texts(tokens: Seq<Token>) -> Seq<char>
    decreases tokens.len(),
{
    if tokens.len() == 0 {
        Seq::empty()
    } else {
        joined_texts(tokens.drop_last()) + tokens.last().text@
    }
}

/// The tokens `spans` tile the first `upto` characters of a line: none is
/// empty, the first starts at 0, each starts where the one before it ends,
/// and the last ends at `upto`.
pub open spec fn tiles(spans: Seq<Span>, upto: int) -> bool {
    &&& forall|k: int| 0 <= k < spans.len() ==> (#[trigger] spans[k]).start < spans[k].end
    &&& forall|j: int, k: int|
        0 <= j && k == j + 1 && k < spans.len() ==> (#[trigger] spans[j]).end
            == (#[trigger] spans[k]).start
    &&& if spans.len() == 0 {
        upto == 0
    } else {
        spans[0].start == 0 && spans.last().end == upto
    }
}

/// The line has neither quotes nor backslashes.
pub open spec fn is_plain(chars: Seq<char>) -> bool {
    forall|i: int|
        0 <= i < chars.len() ==> {
            let class = class_of(#[trigger] chars[i]);
            class != CharClass::DoubleQuote && class != CharClass::SingleQuote && class
                != CharClass::Backslash
        }
}

/// The characters up to which the closed tokens of `s` reach after `n`
/// characters: all of them if no token is open, else those before the open
/// token.
pub open spec fn closed_upto(s: Scan, n: int) -> int {
    if s.state == State::Initial {
        n
    } else {
        s.start
    }
}

/// After `n` characters the scanner is never in the state `Special`, an open
/// token holds at least one character, and the closed tokens tile the
/// characters before the open one.
pub proof fn lemma_scan_tiles(chars: Seq<char>, n: int)
    requires
        0 <= n <= chars.len(),
        scan(chars, n) is Ok,
    ensures
        scan(chars, n)->Ok_0.state != State::Special,
        scan(chars, n)->Ok_0.state != State::Initial ==> 0 <= scan(chars, n)->Ok_0.start < n,
        tiles(scan(chars, n)->Ok_0.spans, closed_upto(scan(chars, n)->Ok_0, n)),
    decreases n,
{
    if n > 0 {
        lemma_scan_tiles(chars, n - 1);
        let s = scan(chars, n - 1)->Ok_0;
        let t = transition_of(
            s.state,
            class_of(chars[n - 1]),
            byte_offset(chars, n - 1) as usize,
        )->Ok_0;
        let flushed = if t.flush {
            reduced(s, n - 1)
        } else {
            s
        };
        assert(tiles(flushed.spans, closed_upto(flushed, n - 1)));
        let taken = shifted(flushed, n - 1, t.next);
        assert(tiles(taken.spans, closed_upto(taken, n)));
        if t.emit {
            assert(tiles(reduced(taken, n).spans, n));
        }
    }
}

/// The tokens of a line tile it: every character is in exactly one token,
/// and the tokens come in the order of the line.
pub proof fn lemma_tokens_tile(chars: Seq<char>)
    requires
        lex(chars) is Ok,
    ensures
        tiles(lex(chars)->Ok_0, chars.len() as int),
{
    lemma_scan_tiles(chars, chars.len() as int);
}

/// Tokens that tile the first `upto` characters of a line give, one after
/// the other, these characters.
pub proof fn lemma_tiles_join(chars: Seq<char>, spans: Seq<Span>, upto: int)
    requires
        tiles(spans, upto),
        upto <= chars.len(),
    ensures
        0 <= upto,
        joined(chars, spans) == chars.take(upto),
    decreases spans.len(),
{
    if spans.len() == 0 {
        assert(chars.take(0) =~= Seq::<char>::empty());
    } else {
        let before = spans.drop_last();
        let last = spans.last();
        if before.len() == 0 {
            assert(tiles(before, 0));
        } else {
            assert(spans[spans.len() - 2].end == last.start);
            assert(before.last() == spans[spans.len() - 2]);
            assert(tiles(before, last.start)) by {
                assert forall|j: int, k: int|
                    0 <= j && k == j + 1 && k < before.len() implies (#[trigger] before[j]).end
                        == (#[trigger] before[k]).start by {
                    assert(spans[j].end == spans[k].start);
                }
            }
        }
        lemma_tiles_join(chars, before, last.start);
        assert(chars.take(upto) =~= chars.take(last.start) + chars.subrange(last.start, last.end));
    }
}

/// The texts of the tokens of a line, one after the other, are the line.
pub proof fn lemma_tokens_join(chars: Seq<char>)
    requires
        lex(chars) is Ok,
    ensures
        joined(chars, lex(chars)->Ok_0) == chars,
{
    lemma_tokens_tile(chars);
    lemma_tiles_join(chars, lex(chars)->Ok_0, chars.len() as int);
    assert(chars.take(chars.len() as int) =~= chars);
}

/// Tokens that are those of `spans` have the joined text of `spans`.
pub proof fn lemma_joined_texts(tokens: Seq<Token>, chars: Seq<char>, spans: Seq<Span>)
    requires
        are_tokens_of(tokens, chars, spans),
    ensures
        joined_texts(tokens) == joined(chars, spans),
    decreases spans.len(),
{
    if spans.len() > 0 {
        assert(is_token_of(tokens[tokens.len() - 1], chars, spans[spans.len() - 1]));
        assert(are_tokens_of(tokens.drop_last(), chars, spans.drop_last())) by {
            assert forall|k: int| 0 <= k < spans.drop_last().len() implies is_token_of(
                #[trigger] tokens.drop_last()[k],
                chars,
                spans.drop_last()[k],
            ) by {
                assert(is_token_of(tokens[k], chars, spans[k]));
            }
        }
        lemma_joined_texts(tokens.drop_last(), chars, spans.drop_last());
    }
}

/// While a line has had neither quotes nor backslashes, the scanner has met
/// no error and is in one of the states `Initial`, `Whitespace` and `Word`.
pub proof fn lemma_plain_scan(chars: Seq<char>, n: int)
    requires
        is_plain(chars),
        0 <= n <= chars.len(),
    ensures
        scan(chars, n) is Ok,
        ({
            let state = scan(chars, n)->Ok_0.state;
            state == State::Initial || state == State::Whitespace || state == State::Word
        }),
    decreases n,
{
    if n > 0 {
        lemma_plain_scan(chars, n - 1);
        let class = class_of(chars[n - 1]);
        assert(class != CharClass::DoubleQuote && class != CharClass::SingleQuote && class
            != CharClass::Backslash);
    }
}

/// A line of words and whitespace, without quotes and backslashes, has
/// tokens, and their texts, one after the other, are the line.
pub proof fn lemma_plain_line_round_trip(chars: Seq<char>)
    requires
        is_plain(chars),
    ensures
        lex(chars) is Ok,
        joined(chars, lex(chars)->Ok_0) == chars,
{
    lemma_plain_scan(chars, chars.len() as int);
    lemma_tokens_join(chars);
}

/// Tokenize a body of text.
///
/// The result holds the tokens of `lex`, in order, each a slice of `text`;
/// or the first error that the scanner met. The texts of the tokens, one
/// after the other, are the text.
pub fn tokenize<'text>(text: &'text str) -> (r: Result<Vec<Token<'text>>, TokenizerError>)
    ensures
        match r {
            Ok(tokens) => lex(text@) matches Ok(spans) && are_tokens_of(tokens@, text@, spans)
                && joined_texts(tokens@) == text@,
            Err(e) => lex(text@) == Err::<Seq<Span>, TokenizerError>(e),
        },
{
    let mut tokenizer = Tokenizer::new(text);
    match tokenizer.tokenize() {
        Ok(_) => {
            proof {
                lemma_tokens_join(text@);
                lemma_joined_texts(tokenizer.tokens@, text@, lex(text@)->Ok_0);
            }
            Ok(tokenizer.tokens)
        },
        Err(error) => Err(error),
    }
}

} // verus!
