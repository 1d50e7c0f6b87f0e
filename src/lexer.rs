use vstd::prelude::*;

verus! {

/// Where a token starts: an optional file path, and zero-based row and column.
#[derive(Debug, Clone, PartialEq, Eq, Hash)]
pub struct Loc {
    pub file_path: Option<String>,
    pub row: usize,
    pub col: usize,
}

/// The class of a token.
#[derive(Debug, PartialEq, Clone, Copy, Eq, Hash, Structural)]
pub enum TokenKind {
    Sym,
    // Keywords
    Rule,
    Shape,
    Apply,
    Done,
    // Special characters
    OpenParen,
    CloseParen,
    Comma,
    Equals,
    Colon,
    // Terminators
    Invalid,
    End,
}

/// A classified slice of the source, with the place of its first character.
#[derive(Debug, Clone, PartialEq, Eq, Hash)]
pub struct Token {
    pub kind: TokenKind,
    pub text: String,
    pub loc: Loc,
}

/// Model of a token: its kind, its text and where it starts.
pub struct TokenView {
    pub kind: TokenKind,
    pub text: Seq<char>,
    pub file: Option<Seq<char>>,
    pub row: nat,
    pub col: nat,
}

pub open spec fn opt_string_view(o: Option<String>) -> Option<Seq<char>> {
    match o {
        Some(s) => Some(s@),
        None => None,
    }
}

impl View for Token {
    type V = TokenView;

    open spec fn view(&self) -> TokenView {
        TokenView {
            kind: self.kind,
            text: self.text@,
            file: opt_string_view(self.loc.file_path),
            row: self.loc.row as nat,
            col: self.loc.col as nat,
        }
    }
}

/// What `char::is_whitespace` returns: whether the character has the
/// Unicode White_Space property.
pub uninterp spec fn white_space(c: char) -> bool;

/// What `char::is_alphanumeric` returns: whether the character is
/// Alphabetic or Numeric in Unicode's sense.
pub uninterp spec fn alphanumeric(c: char) -> bool;

/// Relies on `char::is_whitespace`, which depends on the character alone.
#[verifier::external_body]
fn char_is_whitespace(c: char) -> (r: bool)
    ensures
        r == white_space(c),
{
    c.is_whitespace()
}

/// Relies on `char::is_alphanumeric`, which depends on the character alone.
#[verifier::external_body]
fn char_is_alphanumeric(c: char) -> (r: bool)
    ensures
        r == alphanumeric(c),
{
    c.is_alphanumeric()
}

/// Relies on `String::push`: appends one character.
#[verifier::external_body]
fn push_char(s: &mut String, c: char)
    ensures
        final(s)@ == old(s)@.push(c),
{
    s.push(c)
}

/// Decimal digits of `n`, most significant first, without leading zeros.
pub open spec fn decimal(n: nat) -> Seq<char>
    decreases n,
{
    let digit = seq!['0', '1', '2', '3', '4', '5', '6', '7', '8', '9'][(n % 10) as int];
    if n < 10 {
        seq![digit]
    } else {
        decimal(n / 10).push(digit)
    }
}

/// Relies on `usize`'s `to_string`: its decimal text.
#[verifier::external_body]
fn decimal_text(n: usize) -> (r: String)
    ensures
        r@ == decimal(n as nat),
{
    n.to_string()
}

/// Text of a location: `file:row:col` when the file is known, else `row:col`.
pub open spec fn loc_text(file: Option<Seq<char>>, row: nat, col: nat) -> Seq<char> {
    let tail = decimal(row) + seq![':'] + decimal(col);
    match file {
        Some(f) => f + seq![':'] + tail,
        None => tail,
    }
}

impl Loc {
    /// Display text of the location.
    pub fn render(&self) -> (r: String)
        ensures
            r@ == loc_text(opt_string_view(self.file_path), self.row as nat, self.col as nat),
    {
        proof {
            reveal_strlit(":");
        }
        let mut out = match &self.file_path {
            Some(file_path) => {
                let mut s = file_path.clone();
                s.append(":");
                s
            },
            None => String::new(),
        };
        let row = decimal_text(self.row);
        let col = decimal_text(self.col);
        out.append(row.as_str());
        out.append(":");
        out.append(col.as_str());
        out
    }
}


/// Display name of each token kind.
pub open spec fn kind_name(k: TokenKind) -> Seq<char> {
    match k {
        TokenKind::Sym => "symbol"@,
        TokenKind::Rule => "rule keyword"@,
        TokenKind::Shape => "shape keyword"@,
        TokenKind::Apply => "apply keyword"@,
        TokenKind::Done => "done keyword"@,
        TokenKind::OpenParen => "open paren"@,
        TokenKind::CloseParen => "close paren"@,
        TokenKind::Comma => "comma"@,
        TokenKind::Equals => "equals"@,
        TokenKind::Colon => "colon"@,
        TokenKind::Invalid => "invalid token"@,
        TokenKind::End => "end of input"@,
    }
}

impl TokenKind {
    /// Display name of the kind, such as `open paren`.
    pub fn name(&self) -> (r: String)
        ensures
            r@ == kind_name(*self),
    {
        match self {
            TokenKind::Sym => String::from_str("symbol"),
            TokenKind::Rule => String::from_str("rule keyword"),
            TokenKind::Shape => String::from_str("shape keyword"),
            TokenKind::Apply => String::from_str("apply keyword"),
            TokenKind::Done => String::from_str("done keyword"),
            TokenKind::OpenParen => String::from_str("open paren"),
            TokenKind::CloseParen => String::from_str("close paren"),
            TokenKind::Comma => String::from_str("comma"),
            TokenKind::Equals => String::from_str("equals"),
            TokenKind::Colon => String::from_str("colon"),
            TokenKind::Invalid => String::from_str("invalid token"),
            TokenKind::End => String::from_str("end of input"),
        }
    }
}

/// The keyword spelled by `text`, if it is one.
pub open spec fn keyword_kind(text: Seq<char>) -> Option<TokenKind> {
    if text == "rule"@ {
        Some(TokenKind::Rule)
    } else if text == "shape"@ {
        Some(TokenKind::Shape)
    } else if text == "apply"@ {
        Some(TokenKind::Apply)
    } else if text == "done"@ {
        Some(TokenKind::Done)
    } else {
        None
    }
}

fn keyword_by_name(text: &String) -> (r: Option<TokenKind>)
    ensures
        r == keyword_kind(text@),
{
    if text.eq(&String::from_str("rule")) {
        Some(TokenKind::Rule)
    } else if text.eq(&String::from_str("shape")) {
        Some(TokenKind::Shape)
    } else if text.eq(&String::from_str("apply")) {
        Some(TokenKind::Apply)
    } else if text.eq(&String::from_str("done")) {
        Some(TokenKind::Done)
    } else {
        None
    }
}

/// The kind of a one-character punctuation token.
pub open spec fn punct_kind(c: char) -> Option<TokenKind> {
    if c == '(' {
        Some(TokenKind::OpenParen)
    } else if c == ')' {
        Some(TokenKind::CloseParen)
    } else if c == ',' {
        Some(TokenKind::Comma)
    } else if c == '=' {
        Some(TokenKind::Equals)
    } else if c == ':' {
        Some(TokenKind::Colon)
    } else {
        None
    }
}

/// First position at or after `i` whose flag in `white` is not set.
pub open spec fn skip_white(white: Seq<bool>, i: int) -> int
    decreases white.len() - i,
{
    if i < 0 || i >= white.len() || !white[i] {
        i
    } else {
        skip_white(white, i + 1)
    }
}

/// First position at or after `i` whose flag in `alnum` is not set.
pub open spec fn word_end(alnum: Seq<bool>, i: int) -> int
    decreases alnum.len() - i,
{
    if i < 0 || i >= alnum.len() || !alnum[i] {
        i
    } else {
        word_end(alnum, i + 1)
    }
}

/// Number of newlines in `s[i..j]`.
pub open spec fn newlines(s: Seq<char>, i: int, j: int) -> nat
    decreases j - i,
{
    if j <= i {
        0
    } else {
        newlines(s, i, j - 1) + if s[j - 1] == '\n' {
            1nat
        } else {
            0nat
        }
    }
}

/// Start of the current line after reading `s[i..j]`, given that it was
/// `start` before: just past the last newline there, if any.
pub open spec fn line_start_after(s: Seq<char>, i: int, j: int, start: nat) -> nat
    decreases j - i,
{
    if j <= i {
        start
    } else if s[j - 1] == '\n' {
        j as nat
    } else {
        line_start_after(s, i, j - 1, start)
    }
}

/// Model of the tokenizer: the input with, for each character, whether it is
/// white space and whether it is alphanumeric; how much of it was read; the
/// current row and the position where it began; the file path; and whether
/// the stream has ended.
pub struct LexState {
    pub input: Seq<char>,
    pub white: Seq<bool>,
    pub alnum: Seq<bool>,
    pub pos: nat,
    pub row: nat,
    pub line_start: nat,
    pub file: Option<Seq<char>>,
    pub exhausted: bool,
}

/// One step of the tokenizer: the state after it and the token it yields.
/// White space is skipped first; the token's place is that of its first
/// character. An invalid character and the end of input end the stream.
pub open spec fn lex_step(st: LexState) -> (LexState, Option<TokenView>) {
    if st.exhausted {
        (st, None)
    } else {
        let s = st.input;
        let j = skip_white(st.white, st.pos as int);
        let row = st.row + newlines(s, st.pos as int, j);
        let ls = line_start_after(s, st.pos as int, j, st.line_start);
        let col = (j - ls) as nat;
        let at = LexState { pos: j as nat, row: row, line_start: ls, ..st };
        if j >= s.len() {
            (
                LexState { exhausted: true, ..at },
                Some(TokenView { kind: TokenKind::End, text: Seq::empty(), file: st.file, row, col }),
            )
        } else {
            let c = s[j];
            match punct_kind(c) {
                Some(k) => (
                    LexState { pos: (j + 1) as nat, ..at },
                    Some(TokenView { kind: k, text: seq![c], file: st.file, row, col }),
                ),
                None => if !st.alnum[j] {
                    (
                        LexState { pos: (j + 1) as nat, exhausted: true, ..at },
                        Some(
                            TokenView { kind: TokenKind::Invalid, text: seq![c], file: st.file, row, col },
                        ),
                    )
                } else {
                    let e = word_end(st.alnum, j + 1);
                    let text = s.subrange(j, e);
                    let kind = match keyword_kind(text) {
                        Some(k) => k,
                        None => TokenKind::Sym,
                    };
                    (
                        LexState { pos: e as nat, ..at },
                        Some(TokenView { kind, text, file: st.file, row, col }),
                    )
                },
            }
        }
    }
}


/// A pull-based tokenizer over a sequence of characters.
pub struct Lexer {
    chars: Vec<char>,
    white: Vec<bool>,
    alnum: Vec<bool>,
    exhausted: bool,
    file_path: Option<String>,
    lnum: usize,
    bol: usize,
    cnum: usize,
}

impl View for Lexer {
    type V = LexState;

    closed spec fn view(&self) -> LexState {
        LexState {
            input: self.chars@,
            white: self.white@,
            alnum: self.alnum@,
            pos: self.cnum as nat,
            row: self.lnum as nat,
            line_start: self.bol as nat,
            file: opt_string_view(self.file_path),
            exhausted: self.exhausted,
        }
    }
}

/// A state at the start of `input`, with no file path.
pub open spec fn initial_state(input: Seq<char>, white: Seq<bool>, alnum: Seq<bool>) -> LexState {
    LexState { input, white, alnum, pos: 0, row: 0, line_start: 0, file: None, exhausted: false }
}

fn copy_path(p: &Option<String>) -> (r: Option<String>)
    ensures
        opt_string_view(r) == opt_string_view(*p),
{
    match p {
        Some(s) => Some(s.clone()),
        None => None,
    }
}

impl Lexer {
    /// One flag of each kind per character; read position, row and line
    /// start never pass the end of what was read.
    pub closed spec fn wf(&self) -> bool {
        &&& self.white.len() == self.chars.len()
        &&& self.alnum.len() == self.chars.len()
        &&& self.cnum <= self.chars.len()
        &&& self.bol <= self.cnum
        &&& self.lnum <= self.cnum
    }

    /// A tokenizer at the start of `chars`, with no file path; each
    /// character is classified by `char::is_whitespace` and
    /// `char::is_alphanumeric`.
    pub fn from_iter(chars: Vec<char>) -> (r: Lexer)
        ensures
            r.wf(),
            r@ == initial_state(
                chars@,
                chars@.map_values(|c: char| white_space(c)),
                chars@.map_values(|c: char| alphanumeric(c)),
            ),
    {
        let mut white: Vec<bool> = Vec::new();
        let mut alnum: Vec<bool> = Vec::new();
        let mut i: usize = 0;
        while i < chars.len()
            invariant
                i <= chars.len(),
                white.len() == i,
                alnum.len() == i,
                forall|j: int| 0 <= j < i ==> white[j] == white_space(chars[j]),
                forall|j: int| 0 <= j < i ==> alnum[j] == alphanumeric(chars[j]),
            decreases chars.len() - i,
        {
            white.push(char_is_whitespace(chars[i]));
            alnum.push(char_is_alphanumeric(chars[i]));
            i = i + 1;
        }
        assert(white@ =~= chars@.map_values(|c: char| white_space(c)));
        assert(alnum@ =~= chars@.map_values(|c: char| alphanumeric(c)));
        Lexer::from_classified(chars, white, alnum)
    }

    /// A tokenizer at the start of `chars`, with no file path, where
    /// `white[i]` tells whether `chars[i]` is white space and `alnum[i]`
    /// whether it is alphanumeric.
    pub fn from_classified(chars: Vec<char>, white: Vec<bool>, alnum: Vec<bool>) -> (r: Lexer)
        requires
            white.len() == chars.len(),
            alnum.len() == chars.len(),
        ensures
            r.wf(),
            r@ == initial_state(chars@, white@, alnum@),
    {
        Lexer { chars, white, alnum, exhausted: false, file_path: None, lnum: 0, bol: 0, cnum: 0 }
    }

    /// Location of the current read position.
    fn loc(&self) -> (r: Loc)
        requires
            self.wf(),
        ensures
            opt_string_view(r.file_path) == self@.file,
            r.row == self@.row,
            r.col == self@.pos - self@.line_start,
    {
        Loc { file_path: copy_path(&self.file_path), row: self.lnum, col: self.cnum - self.bol }
    }

    /// Names the file that the locations of later tokens refer to.
    pub fn set_file_path(&mut self, file_path: &str)
        ensures
            final(self).wf() == old(self).wf(),
            final(self)@ == (LexState { file: Some(file_path@), ..old(self)@ }),
    {
        self.file_path = Some(String::from_str(file_path))
    }

    /// The next token, or `None` once the stream has ended.
    pub fn next(&mut self) -> (r: Option<Token>)
        requires
            old(self).wf(),
        ensures
            final(self).wf(),
            (final(self)@, match r {
                Some(t) => Some(t@),
                None => None,
            }) == lex_step(old(self)@),
    {
        if self.exhausted {
            return None;
        }
        let ghost s = self.chars@;
        let ghost white = self.white@;
        let ghost alnum = self.alnum@;
        let ghost p0 = self.cnum as int;
        let ghost row0 = self.lnum as nat;
        let ghost bol0 = self.bol as nat;
        loop
            invariant
                self.chars@ == s,
                self.white@ == white,
                self.alnum@ == alnum,
                !self.exhausted,
                self.file_path == old(self).file_path,
                self.wf(),
                p0 <= self.cnum,
                skip_white(white, p0) == skip_white(white, self.cnum as int),
                self.lnum == row0 + newlines(s, p0, self.cnum as int),
                self.bol == line_start_after(s, p0, self.cnum as int, bol0),
            ensures
                self.cnum == skip_white(white, p0),
            decreases self.chars.len() - self.cnum,
        {
            if self.cnum >= self.chars.len() {
                break;
            }
            if !self.white[self.cnum] {
                break;
            }
            let x = self.chars[self.cnum];
            self.cnum = self.cnum + 1;
            if x == '\n' {
                self.lnum = self.lnum + 1;
                self.bol = self.cnum;
            }
        }
        let loc = self.loc();
        if self.cnum >= self.chars.len() {
            self.exhausted = true;
            return Some(Token { kind: TokenKind::End, text: String::new(), loc });
        }
        let x = self.chars[self.cnum];
        let x_alnum = self.alnum[self.cnum];
        self.cnum = self.cnum + 1;
        let mut text = String::new();
        push_char(&mut text, x);
        assert(text@ =~= seq![x]);
        if x == '(' {
            Some(Token { kind: TokenKind::OpenParen, text, loc })
        } else if x == ')' {
            Some(Token { kind: TokenKind::CloseParen, text, loc })
        } else if x == ',' {
            Some(Token { kind: TokenKind::Comma, text, loc })
        } else if x == '=' {
            Some(Token { kind: TokenKind::Equals, text, loc })
        } else if x == ':' {
            Some(Token { kind: TokenKind::Colon, text, loc })
        } else if !x_alnum {
            self.exhausted = true;
            Some(Token { kind: TokenKind::Invalid, text, loc })
        } else {
            let ghost j = self.cnum - 1;
            let ghost before = *self;
            assert(text@ =~= s.subrange(j, self.cnum as int));
            loop
                invariant
                    0 <= j,
                    self.lnum == before.lnum,
                    self.bol == before.bol,
                    self.file_path == before.file_path,
                    self.exhausted == before.exhausted,
                    self.chars@ == s,
                    self.white@ == white,
                    self.alnum@ == alnum,
                    self.wf(),
                    j < self.cnum,
                    word_end(alnum, j + 1) == word_end(alnum, self.cnum as int),
                    text@ == s.subrange(j, self.cnum as int),
                ensures
                    self.cnum == word_end(alnum, j + 1),
                decreases self.chars.len() - self.cnum,
            {
                if self.cnum >= self.chars.len() {
                    break;
                }
                if !self.alnum[self.cnum] {
                    break;
                }
                let y = self.chars[self.cnum];
                self.cnum = self.cnum + 1;
                push_char(&mut text, y);
                assert(text@ =~= s.subrange(j, self.cnum as int));
            }
            match keyword_by_name(&text) {
                Some(kind) => Some(Token { kind, text, loc }),
                None => Some(Token { kind: TokenKind::Sym, text, loc }),
            }
        }
    }
}

} // verus!
