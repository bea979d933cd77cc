use vstd::prelude::*;
use vstd::string::*;
use crate::error::CompileError;
use crate::text::{chars_of, push_char};

verus! {

/// Whether `c` is white space in Unicode's sense, as `char::is_whitespace` has it.
pub open spec fn is_white(c: char) -> bool {
    let u = c as u32;
    (0x9 <= u && u <= 0xd) || u == 0x20 || u == 0x85 || u == 0xa0 || u == 0x1680 || (0x2000 <= u
        && u <= 0x200a) || u == 0x2028 || u == 0x2029 || u == 0x202f || u == 0x205f || u == 0x3000
}

pub open spec fn is_alpha(c: char) -> bool {
    ('a' as u32 <= c as u32 && c as u32 <= 'z' as u32) || ('A' as u32 <= c as u32 && c as u32
        <= 'Z' as u32)
}

pub open spec fn is_digit(c: char) -> bool {
    '0' as u32 <= c as u32 && c as u32 <= '9' as u32
}

pub open spec fn is_alnum(c: char) -> bool {
    is_alpha(c) || is_digit(c)
}

/// Whether the scanner passes over `c` between tokens; a newline is a token
/// of its own unless `emit_newline` is off.
pub open spec fn skippable(c: char, emit_newline: bool) -> bool {
    (c != '\n' && is_white(c)) || (c == '\n' && !emit_newline)
}

/// Where the first token at or after `i` starts.
pub open spec fn skip_end(src: Seq<char>, i: nat, emit_newline: bool) -> nat
    decreases src.len() - i,
{
    if i >= src.len() || !skippable(src[i as int], emit_newline) {
        i
    } else {
        skip_end(src, i + 1, emit_newline)
    }
}

/// The end of the run of characters from `i` on that are letters, digits or `_`
/// (`underscore`), or letters and digits only.
pub open spec fn word_end(src: Seq<char>, i: nat, underscore: bool) -> nat
    decreases src.len() - i,
{
    if i < src.len() && (is_alnum(src[i as int]) || (underscore && src[i as int] == '_')) {
        word_end(src, i + 1, underscore)
    } else {
        i
    }
}

/// The end of the run of digits from `i` on.
pub open spec fn digits_end(src: Seq<char>, i: nat) -> nat
    decreases src.len() - i,
{
    if i < src.len() && is_digit(src[i as int]) {
        digits_end(src, i + 1)
    } else {
        i
    }
}

/// The length of the operator or punctuation token at `j`, 0 if there is none;
/// the two-character operators are tried first.
pub open spec fn symbol_len(src: Seq<char>, j: nat) -> nat {
    let c = src[j as int];
    if j + 1 < src.len() && (c == '=' || c == '!' || c == '<' || c == '>') && src[(j + 1) as int] == '=' {
        2
    } else if c == '+' || c == '-' || c == '*' || c == '/' || c == '=' || c == '<' || c == '>'
        || c == '{' || c == '}' || c == '(' || c == ')' || c == '\n' {
        1
    } else {
        0
    }
}

/// Where the next token lies in the source, and whether it is illegal.
pub struct LexStep {
    pub start: nat,
    pub end: nat,
    pub illegal: bool,
}

/// The next token after position `i`: white space skipped, then an operator,
/// a word, a number (illegal when letters follow its digits), or a single
/// illegal character.
pub open spec fn lex_step(src: Seq<char>, i: nat, emit_newline: bool) -> LexStep {
    let j = skip_end(src, i, emit_newline);
    if j >= src.len() {
        LexStep { start: j, end: j, illegal: false }
    } else if symbol_len(src, j) > 0 {
        LexStep { start: j, end: j + symbol_len(src, j), illegal: false }
    } else if is_alpha(src[j as int]) || src[j as int] == '_' {
        LexStep { start: j, end: word_end(src, j, true), illegal: false }
    } else if is_digit(src[j as int]) {
        let k = digits_end(src, j);
        let m = word_end(src, k, false);
        LexStep { start: j, end: m, illegal: m > k }
    } else {
        LexStep { start: j, end: j + 1, illegal: true }
    }
}

/// Whether `tt` is the token spelled `text` (illegal if `illegal`).
pub open spec fn token_is(tt: TokenType, text: Seq<char>, illegal: bool) -> bool {
    if illegal {
        tt matches TokenType::Illegal(s) && s@ == text
    } else if text.len() == 0 {
        tt is EndOfFile
    } else if is_alpha(text[0]) || text[0] == '_' {
        if text == "let"@ {
            tt is Let
        } else if text == "exit"@ {
            tt is Exit
        } else if text == "if"@ {
            tt is If
        } else if text == "else"@ {
            tt is Else
        } else {
            tt matches TokenType::Ident(s) && s@ == text
        }
    } else if is_digit(text[0]) {
        tt matches TokenType::IntLiteral(s) && s@ == text
    } else if text.len() == 2 {
        match text[0] {
            '=' => tt is Equal,
            '!' => tt is NotEqual,
            '<' => tt is LessEqual,
            _ => tt is GreaterEqual,
        }
    } else {
        match text[0] {
            '+' => tt is Plus,
            '-' => tt is Minus,
            '*' => tt is Asterisk,
            '/' => tt is ForwardSlash,
            '=' => tt is Assign,
            '<' => tt is Less,
            '>' => tt is Greater,
            '{' => tt is SCurly,
            '}' => tt is ECurly,
            '(' => tt is SBrace,
            ')' => tt is EBrace,
            _ => tt is NewLine,
        }
    }
}

/// The place after passing over character `i` from `l`: a newline starts the
/// next row; otherwise the column moves on unless the next character is a
/// newline or there is none.
pub open spec fn step_loc(l: Location, src: Seq<char>, i: nat) -> Location {
    if src[i as int] == '\n' {
        Location { row: (l.row + 1) as usize, col: 1 }
    } else if i + 1 < src.len() && src[(i + 1) as int] != '\n' {
        Location { row: l.row, col: (l.col + 1) as usize }
    } else {
        l
    }
}

/// The place after passing over characters `i` to `j` from `l`.
pub open spec fn advance(l: Location, src: Seq<char>, i: nat, j: nat) -> Location
    decreases j - i,
{
    if j <= i {
        l
    } else {
        step_loc(advance(l, src, i, (j - 1) as nat), src, (j - 1) as nat)
    }
}

/// A place in the source text: row and column, both counted from 1.
#[derive(Debug, Clone, Copy, PartialEq, Eq, Structural)]
pub struct Location {
    pub row: usize,
    pub col: usize,
}

impl Default for Location {
    fn default() -> (r: Self)
        ensures
            r.row == 1 && r.col == 1,
    {
        Location { row: 1, col: 1 }
    }
}

/// What a token is.
#[derive(Debug, PartialEq, Eq)]
pub enum TokenType {
    StartOfFile,
    EndOfFile,
    Ident(String),
    IntLiteral(String),
    Illegal(String),
    Let,
    Exit,
    If,
    Else,
    NewLine,
    Assign,
    Plus,
    Minus,
    Asterisk,
    ForwardSlash,
    Equal,
    NotEqual,
    Less,
    LessEqual,
    Greater,
    GreaterEqual,
    SCurly,
    ECurly,
    SBrace,
    EBrace,
}

impl Clone for TokenType {
    fn clone(&self) -> (r: Self)
        ensures
            r == *self,
    {
        match self {
            TokenType::StartOfFile => TokenType::StartOfFile,
            TokenType::EndOfFile => TokenType::EndOfFile,
            TokenType::Ident(s) => TokenType::Ident(s.clone()),
            TokenType::IntLiteral(s) => TokenType::IntLiteral(s.clone()),
            TokenType::Illegal(s) => TokenType::Illegal(s.clone()),
            TokenType::Let => TokenType::Let,
            TokenType::Exit => TokenType::Exit,
            TokenType::If => TokenType::If,
            TokenType::Else => TokenType::Else,
            TokenType::NewLine => TokenType::NewLine,
            TokenType::Assign => TokenType::Assign,
            TokenType::Plus => TokenType::Plus,
            TokenType::Minus => TokenType::Minus,
            TokenType::Asterisk => TokenType::Asterisk,
            TokenType::ForwardSlash => TokenType::ForwardSlash,
            TokenType::Equal => TokenType::Equal,
            TokenType::NotEqual => TokenType::NotEqual,
            TokenType::Less => TokenType::Less,
            TokenType::LessEqual => TokenType::LessEqual,
            TokenType::Greater => TokenType::Greater,
            TokenType::GreaterEqual => TokenType::GreaterEqual,
            TokenType::SCurly => TokenType::SCurly,
            TokenType::ECurly => TokenType::ECurly,
            TokenType::SBrace => TokenType::SBrace,
            TokenType::EBrace => TokenType::EBrace,
        }
    }
}

impl Default for TokenType {
    fn default() -> (r: Self)
        ensures
            r is StartOfFile,
    {
        TokenType::StartOfFile
    }
}

/// A token with the file it came from and where it starts and ends.
#[derive(Debug)]
pub struct Token {
    pub file: Option<String>,
    pub start: Location,
    pub end: Location,
    pub tokentype: TokenType,
}

impl Clone for Token {
    fn clone(&self) -> (r: Self)
        ensures
            r == *self,
    {
        let file = match &self.file {
            Some(f) => Some(f.clone()),
            None => None,
        };
        Token { file, start: self.start, end: self.end, tokentype: self.tokentype.clone() }
    }
}

/// Whether `c` is white space in Unicode's sense.
fn white(c: char) -> (r: bool)
    ensures
        r == is_white(c),
{
    let u = c as u32;
    (0x9 <= u && u <= 0xd) || u == 0x20 || u == 0x85 || u == 0xa0 || u == 0x1680 || (0x2000 <= u
        && u <= 0x200a) || u == 0x2028 || u == 0x2029 || u == 0x202f || u == 0x205f || u == 0x3000
}

fn alpha(c: char) -> (r: bool)
    ensures
        r == is_alpha(c),
{
    ('a' as u32 <= c as u32 && c as u32 <= 'z' as u32) || ('A' as u32 <= c as u32 && c as u32
        <= 'Z' as u32)
}

fn digit(c: char) -> (r: bool)
    ensures
        r == is_digit(c),
{
    '0' as u32 <= c as u32 && c as u32 <= '9' as u32
}

/// Turns source text into tokens on demand, one at a time, and keeps those
/// it has made so that it can step back over them.
pub struct Lexer {
    source: Vec<char>,
    tokens: Vec<Token>,
    token_cursor: usize,
    peek_ch: Option<char>,
    ch_cursor: usize,
    file: Option<String>,
    loc: Location,
    emit_newline: bool,
}

impl Lexer {
    /// The source text.
    pub closed spec fn source(&self) -> Seq<char> {
        self.source@
    }

    /// The tokens made so far, starting with the start-of-file marker.
    pub closed spec fn tokens(&self) -> Seq<Token> {
        self.tokens@
    }

    /// The index of the current token among those made so far.
    pub closed spec fn token_cursor(&self) -> nat {
        self.token_cursor as nat
    }

    /// How far the source has been read.
    pub closed spec fn ch_cursor(&self) -> nat {
        self.ch_cursor as nat
    }

    /// The place reached in the source.
    pub closed spec fn location(&self) -> Location {
        self.loc
    }

    /// Whether a newline is a token (otherwise it is passed over like white space).
    pub closed spec fn newline_mode(&self) -> bool {
        self.emit_newline
    }

    /// The file name that the tokens carry.
    pub closed spec fn file(&self) -> Option<String> {
        self.file
    }

    /// What `wf` gives to other modules: the current token is one of those made.
    pub proof fn lemma_cursor_in_range(&self)
        requires
            self.wf(),
        ensures
            self.token_cursor() < self.tokens().len(),
            self.tokens().len() >= 1,
            self.ch_cursor() <= self.source().len(),
    {
    }

    /// The current token.
    pub open spec fn current(&self) -> Token {
        self.tokens()[self.token_cursor() as int]
    }

    /// What is left to scan: twice the characters unread, the tokens made but
    /// not yet passed, and one more while the latest token is not the end of file.
    pub open spec fn measure(&self) -> nat {
        (2 * (self.source().len() - self.ch_cursor()) + (self.tokens().len() - 1
            - self.token_cursor()) + if self.tokens().last().tokentype is EndOfFile {
            0int
        } else {
            1int
        }) as nat
    }

    pub closed spec fn wf(&self) -> bool {
        &&& self.source@.len() < usize::MAX
        &&& self.ch_cursor <= self.source@.len()
        &&& self.tokens@.len() >= 1
        &&& self.token_cursor < self.tokens@.len()
        &&& self.peek_ch == if self.ch_cursor < self.source@.len() {
            Some(self.source@[self.ch_cursor as int])
        } else {
            None
        }
        &&& self.loc.row <= self.ch_cursor + 1
        &&& self.loc.col <= self.ch_cursor + 1
    }

    /// A lexer at the start of `source`, on the start-of-file marker, with
    /// newlines as tokens.
    pub fn new(source: String) -> (r: Self)
        requires
            source@.len() < usize::MAX,
        ensures
            r.wf(),
            r.source() == source@,
            r.ch_cursor() == 0,
            r.token_cursor() == 0,
            r.tokens().len() == 1,
            r.current().tokentype is StartOfFile,
            r.current().start == (Location { row: 1, col: 1 }),
            r.current().end == (Location { row: 1, col: 1 }),
            r.current().file is None,
            r.file() is None,
            r.location() == (Location { row: 1, col: 1 }),
            r.newline_mode(),
    {
        Self::with_file(source, None)
    }

    /// A lexer at the start of `source`, whose tokens carry `file`.
    pub fn with_file(source: String, file: Option<String>) -> (r: Self)
        requires
            source@.len() < usize::MAX,
        ensures
            r.wf(),
            r.source() == source@,
            r.ch_cursor() == 0,
            r.token_cursor() == 0,
            r.tokens().len() == 1,
            r.current().tokentype is StartOfFile,
            r.current().start == (Location { row: 1, col: 1 }),
            r.current().end == (Location { row: 1, col: 1 }),
            r.current().file == file,
            r.file() == file,
            r.location() == (Location { row: 1, col: 1 }),
            r.newline_mode(),
    {
        let chars = chars_of(source.as_str());
        let first = Token {
            file: match &file {
                Some(f) => Some(f.clone()),
                None => None,
            },
            start: Location::default(),
            end: Location::default(),
            tokentype: TokenType::StartOfFile,
        };
        let mut tokens = Vec::new();
        tokens.push(first);
        let peek_ch = if chars.len() > 0 {
            Some(chars[0])
        } else {
            None
        };
        Lexer {
            source: chars,
            tokens,
            token_cursor: 0,
            peek_ch,
            ch_cursor: 0,
            file,
            loc: Location::default(),
            emit_newline: true,
        }
    }

    /// Whether the whole source has been read.
    pub fn is_eof(&self) -> (r: bool)
        requires
            self.wf(),
        ensures
            r == (self.ch_cursor() >= self.source().len()),
    {
        self.ch_cursor >= self.source.len()
    }

    /// The current token.
    pub fn peek(&self) -> (r: Token)
        requires
            self.wf(),
        ensures
            r == self.current(),
    {
        self.tokens[self.token_cursor].clone()
    }

    /// Steps back one token, unless on the first.
    pub fn rewind(&mut self)
        requires
            old(self).wf(),
        ensures
            final(self).wf(),
            final(self).token_cursor() == if old(self).token_cursor() > 0 {
                (old(self).token_cursor() - 1) as nat
            } else {
                0
            },
            final(self).tokens() == old(self).tokens(),
            final(self).source() == old(self).source(),
            final(self).ch_cursor() == old(self).ch_cursor(),
            final(self).file() == old(self).file(),
            final(self).location() == old(self).location(),
            final(self).newline_mode() == old(self).newline_mode(),
    {
        if self.token_cursor > 0 {
            self.token_cursor = self.token_cursor - 1;
        }
    }

    /// Whether a newline is a token.
    pub fn emit_newline(&self) -> (r: bool)
        ensures
            r == self.newline_mode(),
    {
        self.emit_newline
    }

    /// Makes newlines tokens, or makes them pass as white space.
    pub fn set_emit_newline(&mut self, emit: bool)
        requires
            old(self).wf(),
        ensures
            final(self).wf(),
            final(self).newline_mode() == emit,
            final(self).source() == old(self).source(),
            final(self).tokens() == old(self).tokens(),
            final(self).token_cursor() == old(self).token_cursor(),
            final(self).ch_cursor() == old(self).ch_cursor(),
            final(self).file() == old(self).file(),
            final(self).location() == old(self).location(),
    {
        self.emit_newline = emit;
    }

    /// Passes over one character, keeping the place up to date.
    fn consume_ch(&mut self)
        requires
            old(self).wf(),
        ensures
            final(self).wf(),
            old(self).ch_cursor < old(self).source@.len() ==> final(self).ch_cursor
                == old(self).ch_cursor + 1 && final(self).loc == step_loc(
                old(self).loc,
                old(self).source@,
                old(self).ch_cursor as nat,
            ),
            old(self).ch_cursor >= old(self).source@.len() ==> final(self).ch_cursor
                == old(self).ch_cursor && final(self).loc == old(self).loc,
            final(self).source == old(self).source,
            final(self).tokens == old(self).tokens,
            final(self).token_cursor == old(self).token_cursor,
            final(self).file == old(self).file,
            final(self).emit_newline == old(self).emit_newline,
    {
        if self.ch_cursor >= self.source.len() {
            return;
        }
        let was_newline = match self.peek_ch {
            Some(c) => c == '\n',
            None => false,
        };
        self.ch_cursor = self.ch_cursor + 1;
        if was_newline {
            self.loc = Location { row: self.loc.row + 1, col: 1 };
        } else if self.ch_cursor < self.source.len() && self.source[self.ch_cursor] != '\n' {
            self.loc = Location { row: self.loc.row, col: self.loc.col + 1 };
        }
        if self.ch_cursor < self.source.len() {
            self.peek_ch = Some(self.source[self.ch_cursor]);
        } else {
            self.peek_ch = None;
        }
    }
}

impl Lexer {
    /// Passes over white space, and over newlines while they are no tokens.
    fn skip_whitespace(&mut self)
        requires
            old(self).wf(),
        ensures
            final(self).wf(),
            final(self).ch_cursor() >= old(self).ch_cursor(),
            final(self).ch_cursor() == skip_end(
                old(self).source(),
                old(self).ch_cursor(),
                old(self).newline_mode(),
            ),
            final(self).location() == advance(
                old(self).location(),
                old(self).source(),
                old(self).ch_cursor(),
                final(self).ch_cursor(),
            ),
            final(self).source == old(self).source,
            final(self).tokens == old(self).tokens,
            final(self).token_cursor == old(self).token_cursor,
            final(self).file == old(self).file,
            final(self).emit_newline == old(self).emit_newline,
    {
        let ghost ch0 = self.ch_cursor as nat;
        let ghost loc0 = self.loc;
        let ghost src = self.source@;
        loop
            invariant
                self.wf(),
                src == self.source@,
                ch0 <= self.ch_cursor,
                skip_end(src, self.ch_cursor as nat, self.emit_newline) == skip_end(
                    src,
                    ch0,
                    self.emit_newline,
                ),
                self.loc == advance(loc0, src, ch0, self.ch_cursor as nat),
                self.source == old(self).source,
                self.tokens == old(self).tokens,
                self.token_cursor == old(self).token_cursor,
                self.file == old(self).file,
                self.emit_newline == old(self).emit_newline,
                ch0 == old(self).ch_cursor,
                loc0 == old(self).loc,
            ensures
                skip_end(src, self.ch_cursor as nat, self.emit_newline) == self.ch_cursor,
            decreases src.len() - self.ch_cursor,
        {
            let skip = match self.peek_ch {
                Some(c) => (c != '\n' && white(c)) || (c == '\n' && !self.emit_newline),
                None => false,
            };
            if !skip {
                break ;
            }
            self.consume_ch();
        }
    }

    /// Reads the run of letters and digits (and `_` if `underscore`) from here on.
    fn scan_word(&mut self, underscore: bool) -> (r: String)
        requires
            old(self).wf(),
        ensures
            final(self).wf(),
            final(self).ch_cursor() >= old(self).ch_cursor(),
            final(self).ch_cursor() == word_end(old(self).source(), old(self).ch_cursor(), underscore),
            r@ == old(self).source().subrange(
                old(self).ch_cursor() as int,
                final(self).ch_cursor() as int,
            ),
            final(self).location() == advance(
                old(self).location(),
                old(self).source(),
                old(self).ch_cursor(),
                final(self).ch_cursor(),
            ),
            final(self).source == old(self).source,
            final(self).tokens == old(self).tokens,
            final(self).token_cursor == old(self).token_cursor,
            final(self).file == old(self).file,
            final(self).emit_newline == old(self).emit_newline,
    {
        let ghost ch0 = self.ch_cursor as nat;
        let ghost loc0 = self.loc;
        let ghost src = self.source@;
        let mut lexeme = String::new();
        loop
            invariant
                self.wf(),
                src == self.source@,
                ch0 <= self.ch_cursor,
                word_end(src, self.ch_cursor as nat, underscore) == word_end(src, ch0, underscore),
                lexeme@ == src.subrange(ch0 as int, self.ch_cursor as int),
                self.loc == advance(loc0, src, ch0, self.ch_cursor as nat),
                self.source == old(self).source,
                self.tokens == old(self).tokens,
                self.token_cursor == old(self).token_cursor,
                self.file == old(self).file,
                self.emit_newline == old(self).emit_newline,
                ch0 == old(self).ch_cursor,
                loc0 == old(self).loc,
            ensures
                word_end(src, self.ch_cursor as nat, underscore) == self.ch_cursor,
            decreases src.len() - self.ch_cursor,
        {
            let c = match self.peek_ch {
                Some(c) => c,
                None => break ,
            };
            if !(alpha(c) || digit(c) || (underscore && c == '_')) {
                break ;
            }
            push_char(&mut lexeme, c);
            self.consume_ch();
            assert(lexeme@ =~= src.subrange(ch0 as int, self.ch_cursor as int));
        }
        lexeme
    }

    /// Reads the run of digits from here on.
    fn scan_digits(&mut self) -> (r: String)
        requires
            old(self).wf(),
        ensures
            final(self).wf(),
            final(self).ch_cursor() >= old(self).ch_cursor(),
            final(self).ch_cursor() == digits_end(old(self).source(), old(self).ch_cursor()),
            r@ == old(self).source().subrange(
                old(self).ch_cursor() as int,
                final(self).ch_cursor() as int,
            ),
            final(self).location() == advance(
                old(self).location(),
                old(self).source(),
                old(self).ch_cursor(),
                final(self).ch_cursor(),
            ),
            final(self).source == old(self).source,
            final(self).tokens == old(self).tokens,
            final(self).token_cursor == old(self).token_cursor,
            final(self).file == old(self).file,
            final(self).emit_newline == old(self).emit_newline,
    {
        let ghost ch0 = self.ch_cursor as nat;
        let ghost loc0 = self.loc;
        let ghost src = self.source@;
        let mut lexeme = String::new();
        loop
            invariant
                self.wf(),
                src == self.source@,
                ch0 <= self.ch_cursor,
                digits_end(src, self.ch_cursor as nat) == digits_end(src, ch0),
                lexeme@ == src.subrange(ch0 as int, self.ch_cursor as int),
                self.loc == advance(loc0, src, ch0, self.ch_cursor as nat),
                self.source == old(self).source,
                self.tokens == old(self).tokens,
                self.token_cursor == old(self).token_cursor,
                self.file == old(self).file,
                self.emit_newline == old(self).emit_newline,
                ch0 == old(self).ch_cursor,
                loc0 == old(self).loc,
            ensures
                digits_end(src, self.ch_cursor as nat) == self.ch_cursor,
            decreases src.len() - self.ch_cursor,
        {
            let c = match self.peek_ch {
                Some(c) => c,
                None => break ,
            };
            if !digit(c) {
                break ;
            }
            push_char(&mut lexeme, c);
            self.consume_ch();
            assert(lexeme@ =~= src.subrange(ch0 as int, self.ch_cursor as int));
        }
        lexeme
    }
}

/// What `consume` does when it has to make a new token: the token spelled
/// by the next lexing step, placed where that step puts it.
pub open spec fn consumed_fresh(old: Lexer, new: Lexer, r: Result<(), CompileError>) -> bool {
    let st = lex_step(old.source(), old.ch_cursor(), old.newline_mode());
    let tok = new.tokens().last();
    &&& new.tokens() == old.tokens().push(tok)
    &&& new.token_cursor() + 1 == new.tokens().len()
    &&& new.ch_cursor() == st.end
    &&& token_is(tok.tokentype, old.source().subrange(st.start as int, st.end as int), st.illegal)
    &&& tok.start == advance(old.location(), old.source(), old.ch_cursor(), st.start)
    &&& tok.end == advance(old.location(), old.source(), old.ch_cursor(), st.end)
    &&& new.location() == tok.end
    &&& tok.file == old.file()
    &&& (st.illegal ==> r == Err::<(), CompileError>(CompileError::IllegalToken(tok)))
    &&& (!st.illegal ==> r is Ok)
}

impl Lexer {
    fn push_token(&mut self, tokentype: TokenType, start: Location)
        requires
            old(self).wf(),
            old(self).token_cursor + 1 == old(self).tokens@.len(),
        ensures
            final(self).wf(),
            final(self).tokens@ == old(self).tokens@.push(
                Token { file: old(self).file, start, end: old(self).loc, tokentype },
            ),
            final(self).token_cursor + 1 == final(self).tokens@.len(),
            final(self).source == old(self).source,
            final(self).ch_cursor == old(self).ch_cursor,
            final(self).loc == old(self).loc,
            final(self).file == old(self).file,
            final(self).emit_newline == old(self).emit_newline,
    {
        let file = match &self.file {
            Some(f) => Some(f.clone()),
            None => None,
        };
        self.tokens.push(Token { file, start, end: self.loc, tokentype });
        self.token_cursor = self.tokens.len() - 1;
    }

    /// Lexes the token that starts right here, with no white space before it.
    fn lex_token(&mut self) -> (r: Result<(), CompileError>)
        requires
            old(self).wf(),
            old(self).token_cursor + 1 == old(self).tokens@.len(),
            skip_end(old(self).source@, old(self).ch_cursor as nat, old(self).emit_newline)
                == old(self).ch_cursor,
        ensures
            final(self).wf(),
            final(self).source == old(self).source,
            final(self).file == old(self).file,
            final(self).emit_newline == old(self).emit_newline,
            consumed_fresh(*old(self), *final(self), r),
    {
        let ghost src = self.source@;
        let ghost st = lex_step(src, self.ch_cursor as nat, self.emit_newline);
        let start = self.loc;
        let j = self.ch_cursor;
        let ghost text = src.subrange(st.start as int, st.end as int);
        if j >= self.source.len() {
            self.push_token(TokenType::EndOfFile, start);
            assert(text.len() == 0);
            return Ok(());
        }
        let c = self.source[j];
        if c == '+' || c == '-' || c == '*' || c == '/' || c == '=' || c == '<' || c == '>' || c
            == '{' || c == '}' || c == '(' || c == ')' || c == '\n' || c == '!' {
            return self.lex_operator();
        }
        if alpha(c) || c == '_' {
            let word = self.scan_word(true);
            proof { lemma_runs_grow(src, (j + 1) as nat, self.emit_newline); }
            assert(word@ == text);
            let tokentype = if word == String::from_str("let") {
                TokenType::Let
            } else if word == String::from_str("exit") {
                TokenType::Exit
            } else if word == String::from_str("if") {
                TokenType::If
            } else if word == String::from_str("else") {
                TokenType::Else
            } else {
                TokenType::Ident(word)
            };
            self.push_token(tokentype, start);
            return Ok(());
        }
        if digit(c) {
            let mut digits = self.scan_digits();
            let k = self.ch_cursor;
            proof { lemma_runs_grow(src, (j + 1) as nat, self.emit_newline); }
            assert(k > j);
            let rest = self.scan_word(false);
            proof { lemma_advance_concat(start, src, j as nat, k as nat, st.end); }
            if self.ch_cursor > k {
                digits.append(rest.as_str());
                assert(digits@ =~= text);
                self.push_token(TokenType::Illegal(digits), start);
                return Err(CompileError::IllegalToken(self.tokens[self.token_cursor].clone()));
            }
            assert(digits@ =~= text);
            self.push_token(TokenType::IntLiteral(digits), start);
            return Ok(());
        }
        self.consume_ch();
        proof { reveal_with_fuel(advance, 2); }
        let mut lexeme = String::new();
        push_char(&mut lexeme, c);
        assert(lexeme@ =~= text);
        self.push_token(TokenType::Illegal(lexeme), start);
        Err(CompileError::IllegalToken(self.tokens[self.token_cursor].clone()))
    }

    /// Lexes an operator or punctuation token that starts right here; a `!`
    /// that no `=` follows is illegal.
    fn lex_operator(&mut self) -> (r: Result<(), CompileError>)
        requires
            old(self).wf(),
            old(self).token_cursor + 1 == old(self).tokens@.len(),
            old(self).ch_cursor < old(self).source@.len(),
            skip_end(old(self).source@, old(self).ch_cursor as nat, old(self).emit_newline)
                == old(self).ch_cursor,
            ({
                let c = old(self).source@[old(self).ch_cursor as int];
                c == '+' || c == '-' || c == '*' || c == '/' || c == '=' || c == '<' || c == '>'
                    || c == '{' || c == '}' || c == '(' || c == ')' || c == '\n' || c == '!'
            }),
        ensures
            final(self).wf(),
            final(self).source == old(self).source,
            final(self).file == old(self).file,
            final(self).emit_newline == old(self).emit_newline,
            consumed_fresh(*old(self), *final(self), r),
    {
        let ghost src = self.source@;
        let ghost st = lex_step(src, self.ch_cursor as nat, self.emit_newline);
        let ghost text = src.subrange(st.start as int, st.end as int);
        let start = self.loc;
        let j = self.ch_cursor;
        let c = self.source[j];
        if j + 1 < self.source.len() && (c == '=' || c == '!' || c == '<' || c == '>')
            && self.source[j + 1] == '=' {
            self.consume_ch();
            self.consume_ch();
            proof { reveal_with_fuel(advance, 3); }
            let tokentype = if c == '=' {
                TokenType::Equal
            } else if c == '!' {
                TokenType::NotEqual
            } else if c == '<' {
                TokenType::LessEqual
            } else {
                TokenType::GreaterEqual
            };
            assert(st.end == j + 2);
            self.push_token(tokentype, start);
            assert(text.len() == 2 && text[0] == c);
            return Ok(());
        }
        self.consume_ch();
        proof { reveal_with_fuel(advance, 2); }
        assert(st.end == j + 1);
        if c == '!' {
            let mut lexeme = String::new();
            push_char(&mut lexeme, c);
            assert(lexeme@ =~= text);
            self.push_token(TokenType::Illegal(lexeme), start);
            return Err(CompileError::IllegalToken(self.tokens[self.token_cursor].clone()));
        }
        let tokentype = if c == '+' {
            TokenType::Plus
        } else if c == '-' {
            TokenType::Minus
        } else if c == '*' {
            TokenType::Asterisk
        } else if c == '/' {
            TokenType::ForwardSlash
        } else if c == '=' {
            TokenType::Assign
        } else if c == '<' {
            TokenType::Less
        } else if c == '>' {
            TokenType::Greater
        } else if c == '{' {
            TokenType::SCurly
        } else if c == '}' {
            TokenType::ECurly
        } else if c == '(' {
            TokenType::SBrace
        } else if c == ')' {
            TokenType::EBrace
        } else {
            TokenType::NewLine
        };
        self.push_token(tokentype, start);
        assert(text.len() == 1 && text[0] == c);
        Ok(())
    }

    /// Moves to the next token: the one after the current among those made
    /// already, or else a new one lexed from the source. Lexing an illegal
    /// token fails with that token, which is then the current one.
    pub fn consume(&mut self) -> (r: Result<(), CompileError>)
        requires
            old(self).wf(),
        ensures
            final(self).wf(),
            final(self).source() == old(self).source(),
            final(self).file() == old(self).file(),
            final(self).newline_mode() == old(self).newline_mode(),
            final(self).measure() <= old(self).measure(),
            !(old(self).current().tokentype is EndOfFile) ==> final(self).measure() < old(
                self,
            ).measure(),
            old(self).tokens().is_prefix_of(final(self).tokens()),
            final(self).token_cursor() == old(self).token_cursor() + 1,
            old(self).token_cursor() + 1 < old(self).tokens().len() ==> r is Ok
                && final(self).token_cursor() == old(self).token_cursor() + 1 && final(self).tokens()
                == old(self).tokens() && final(self).ch_cursor() == old(self).ch_cursor()
                && final(self).location() == old(self).location(),
            old(self).token_cursor() + 1 >= old(self).tokens().len() ==> consumed_fresh(
                *old(self),
                *final(self),
                r,
            ),
    {
        if self.token_cursor < self.tokens.len() - 1 {
            self.token_cursor = self.token_cursor + 1;
            return Ok(());
        }
        let ghost before = *self;
        self.skip_whitespace();
        proof { lemma_skip_idempotent(self.source@, before.ch_cursor as nat, self.emit_newline); }
        let ghost mid = *self;
        let r = self.lex_token();
        proof {
            let src = self.source@;
            let st = lex_step(src, before.ch_cursor as nat, self.emit_newline);
            lemma_step_bounds(src, before.ch_cursor as nat, self.emit_newline);
            lemma_advance_concat(before.loc, src, before.ch_cursor as nat, mid.ch_cursor as nat, st.end);
            lemma_token_is_not_eof(self.tokens@.last().tokentype, src.subrange(st.start as int, st.end as int), st.illegal);
        }
        r
    }
}

/// Lexing from where white space ends is lexing from before it.
proof fn lemma_skip_idempotent(src: Seq<char>, i: nat, emit_newline: bool)
    ensures
        skip_end(src, skip_end(src, i, emit_newline), emit_newline) == skip_end(src, i, emit_newline),
        lex_step(src, skip_end(src, i, emit_newline), emit_newline) == lex_step(src, i, emit_newline),
    decreases src.len() - i,
{
    if i < src.len() && skippable(src[i as int], emit_newline) {
        lemma_skip_idempotent(src, i + 1, emit_newline);
    }
}

/// A lexing step stays within the source and after its start; it reads at
/// least one character unless it finds the end of the source.
proof fn lemma_step_bounds(src: Seq<char>, i: nat, emit_newline: bool)
    requires
        i <= src.len(),
    ensures
        ({
            let st = lex_step(src, i, emit_newline);
            &&& i <= st.start <= st.end <= src.len()
            &&& (st.start < src.len() ==> st.start < st.end)
        }),
{
    let j = skip_end(src, i, emit_newline);
    lemma_runs_grow(src, i, emit_newline);
    lemma_runs_bounded(src, i, emit_newline);
    if j < src.len() {
        lemma_runs_grow(src, j + 1, emit_newline);
        lemma_runs_bounded(src, j + 1, emit_newline);
        let k = digits_end(src, j);
        lemma_runs_grow(src, k, emit_newline);
        lemma_runs_bounded(src, j, emit_newline);
        lemma_runs_bounded(src, k, emit_newline);
    }
}

/// The runs that the scanner reads end within the source.
proof fn lemma_runs_bounded(src: Seq<char>, i: nat, emit_newline: bool)
    requires
        i <= src.len(),
    ensures
        word_end(src, i, true) <= src.len(),
        word_end(src, i, false) <= src.len(),
        digits_end(src, i) <= src.len(),
        skip_end(src, i, emit_newline) <= src.len(),
    decreases src.len() - i,
{
    if i < src.len() {
        lemma_runs_bounded(src, i + 1, emit_newline);
    }
}

/// Only the empty text is the end of file.
proof fn lemma_token_is_not_eof(tt: TokenType, text: Seq<char>, illegal: bool)
    requires
        token_is(tt, text, illegal),
    ensures
        (tt is EndOfFile) == (text.len() == 0 && !illegal),
{
}

/// The runs that the scanner reads never end before they start.
proof fn lemma_runs_grow(src: Seq<char>, i: nat, emit_newline: bool)
    ensures
        word_end(src, i, true) >= i,
        word_end(src, i, false) >= i,
        digits_end(src, i) >= i,
        skip_end(src, i, emit_newline) >= i,
    decreases src.len() - i,
{
    if i < src.len() {
        lemma_runs_grow(src, i + 1, emit_newline);
    }
}

/// Passing over `i..k` is passing over `i..j`, then `j..k`.
proof fn lemma_advance_concat(l: Location, src: Seq<char>, i: nat, j: nat, k: nat)
    requires
        i <= j <= k,
    ensures
        advance(advance(l, src, i, j), src, j, k) == advance(l, src, i, k),
    decreases k - j,
{
    if k > j {
        lemma_advance_concat(l, src, i, j, (k - 1) as nat);
    }
}

} // verus!
