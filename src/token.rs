//! Tokens: the lexical categories of the language and the scanner that produces them.
use vstd::prelude::*;
use crate::text::{chars_of, string_of, same_text};
use crate::fault::{Fault, FaultKind, FaultV};

verus! {

/// A lexical category.
#[derive(Debug, Clone, Copy, PartialEq, Eq, Structural)]
pub enum Kind {
    // expression
    Alphanum,
    Integer,
    Operator,
    GroupBegin,
    GroupEnd,
    // boolean
    Comparison,
    Bolean,
    // reserved
    Begin,
    End,
    StatementEnd,
    FunctionDefine,
    FunctionParamBegin,
    FunctionParamEnd,
    ImmutableDefine,
    MutableDefine,
    Assign,
    ID,
    CONST,
    StdOut,
    Return,
    While,
    If,
    Else,
    // others
    Separator,
    Space,
    Unknown,
    EOF,
}

/// A token: its category and the text it was read from.
#[derive(Debug, Clone, PartialEq)]
pub struct Token {
    pub kind: Kind,
    pub value: String,
}

/// What a token is: its kind and its characters.
pub struct TokenV {
    pub kind: Kind,
    pub text: Seq<char>,
}

impl View for Token {
    type V = TokenV;

    open spec fn view(&self) -> TokenV {
        TokenV { kind: self.kind, text: self.value@ }
    }
}

impl Token {
    pub fn build(kind: Kind, value: String) -> (r: Token)
        ensures
            r.kind == kind,
            r.value == value,
    {
        Token { kind, value }
    }

    /// A copy of this token.
    pub fn copy(&self) -> (r: Token)
        ensures
            r == *self,
    {
        Token { kind: self.kind, value: self.value.clone() }
    }
}


/// The category of a single character: the one a token starting with it belongs to,
/// or `Space` for white space, `Alphanum` for a letter or `_`, `Unknown` for a
/// character that starts no token, `EOF` past the end.
pub open spec fn char_kind(c: Option<char>) -> Kind {
    match c {
        None => Kind::EOF,
        Some(c) => if c == ';' {
            Kind::StatementEnd
        } else if c == ',' {
            Kind::Separator
        } else if c == '(' {
            Kind::GroupBegin
        } else if c == ')' {
            Kind::GroupEnd
        } else if c == '[' {
            Kind::FunctionParamBegin
        } else if c == ']' {
            Kind::FunctionParamEnd
        } else if c == '{' {
            Kind::Begin
        } else if c == '}' {
            Kind::End
        } else if c == ' ' || c == '\n' || c == '\t' || c == '\r' {
            Kind::Space
        } else if c == '+' || c == '-' || c == '*' || c == '/' || c == '%' {
            Kind::Operator
        } else if '0' <= c && c <= '9' {
            Kind::Integer
        } else if c == '=' {
            Kind::Assign
        } else if c == '!' || c == '<' || c == '>' || c == '&' || c == '|' {
            Kind::Comparison
        } else if ('a' <= c && c <= 'z') || ('A' <= c && c <= 'Z') || c == '_' {
            Kind::Alphanum
        } else {
            Kind::Unknown
        },
    }
}

/// The kind of a reserved word or symbol, if `w` is one.
pub open spec fn reserved_kind(w: Seq<char>) -> Option<Kind> {
    if w == "fn"@ || w == "fun"@ {
        Some(Kind::FunctionDefine)
    } else if w == "let"@ || w == "imut"@ {
        Some(Kind::ImmutableDefine)
    } else if w == "var"@ || w == "mut"@ {
        Some(Kind::MutableDefine)
    } else if w == "="@ {
        Some(Kind::Assign)
    } else if w == "begin"@ || w == "{"@ {
        Some(Kind::Begin)
    } else if w == "end"@ || w == "}"@ {
        Some(Kind::End)
    } else if w == "return"@ {
        Some(Kind::Return)
    } else if w == "print"@ {
        Some(Kind::StdOut)
    } else if w == "while"@ {
        Some(Kind::While)
    } else if w == "if"@ {
        Some(Kind::If)
    } else if w == "else"@ {
        Some(Kind::Else)
    } else if w == "true"@ || w == "false"@ {
        Some(Kind::Bolean)
    } else if w == "or"@ || w == "||"@ || w == "and"@ || w == "&&"@ {
        Some(Kind::Comparison)
    } else if w == "=="@ || w == "!="@ || w == ">"@ || w == "<"@ {
        Some(Kind::Comparison)
    } else {
        None
    }
}

/// Whether `c` may continue a word: a letter, a digit or `_`.
pub open spec fn word_char(c: char) -> bool {
    char_kind(Some(c)) == Kind::Alphanum || char_kind(Some(c)) == Kind::Integer
}

/// Where the run of characters from `i` on ends: word characters when `word`, else digits.
pub open spec fn run_end(cs: Seq<char>, i: int, word: bool) -> int
    decreases cs.len() - i,
{
    if 0 <= i < cs.len() && (if word { word_char(cs[i]) } else { char_kind(Some(cs[i])) == Kind::Integer }) {
        run_end(cs, i + 1, word)
    } else {
        i
    }
}

/// The next token of `cs` from `pos` on, white space skipped, and the position after
/// it; no token once only white space is left.
pub open spec fn scan(cs: Seq<char>, pos: int) -> (Option<TokenV>, int)
    decreases cs.len() - pos,
{
    if pos < 0 || pos >= cs.len() {
        (None, pos)
    } else {
        let k = char_kind(Some(cs[pos]));
        if k == Kind::Space {
            scan(cs, pos + 1)
        } else if k == Kind::Alphanum {
            let e = run_end(cs, pos + 1, true);
            let w = cs.subrange(pos, e);
            (Some(TokenV { kind: match reserved_kind(w) { Some(r) => r, None => Kind::ID }, text: w }), e)
        } else if k == Kind::Integer {
            let e = run_end(cs, pos + 1, false);
            (Some(TokenV { kind: Kind::Integer, text: cs.subrange(pos, e) }), e)
        } else if k == Kind::Assign || k == Kind::Comparison {
            if pos + 1 < cs.len() && reserved_kind(cs.subrange(pos, pos + 2)) is Some {
                let w = cs.subrange(pos, pos + 2);
                (Some(TokenV { kind: reserved_kind(w)->Some_0, text: w }), pos + 2)
            } else {
                let w = cs.subrange(pos, pos + 1);
                (Some(TokenV { kind: match reserved_kind(w) { Some(r) => r, None => Kind::Unknown }, text: w }), pos + 1)
            }
        } else {
            (Some(TokenV { kind: k, text: cs.subrange(pos, pos + 1) }), pos + 1)
        }
    }
}

/// The tokens of `cs` from `pos` on.
pub open spec fn lex(cs: Seq<char>, pos: int) -> Seq<TokenV>
    decreases cs.len() - pos,
{
    let (t, p) = scan(cs, pos);
    match t {
        None => Seq::empty(),
        Some(t) => if p <= pos || pos < 0 || p > cs.len() {
            seq![t]
        } else {
            seq![t] + lex(cs, p)
        },
    }
}

impl Kind {
    // classify
    // The category of an optional character.
    pub fn classify(character: &Option<char>) -> (r: Kind)
        ensures
            r == char_kind(*character),
    {
        match *character {
            Some(c) => {
                if c == ';' {
                    Kind::StatementEnd
                } else if c == ',' {
                    Kind::Separator
                } else if c == '(' {
                    Kind::GroupBegin
                } else if c == ')' {
                    Kind::GroupEnd
                } else if c == '[' {
                    Kind::FunctionParamBegin
                } else if c == ']' {
                    Kind::FunctionParamEnd
                } else if c == '{' {
                    Kind::Begin
                } else if c == '}' {
                    Kind::End
                } else if c == ' ' || c == '\n' || c == '\t' || c == '\r' {
                    Kind::Space
                } else if c == '+' || c == '-' || c == '*' || c == '/' || c == '%' {
                    Kind::Operator
                } else if '0' <= c && c <= '9' {
                    Kind::Integer
                } else if c == '=' {
                    Kind::Assign
                } else if c == '!' || c == '<' || c == '>' || c == '&' || c == '|' {
                    Kind::Comparison
                } else if ('a' <= c && c <= 'z') || ('A' <= c && c <= 'Z') || c == '_' {
                    Kind::Alphanum
                } else {
                    Kind::Unknown
                }
            },
            None => Kind::EOF,
        }
    }

    // reserved
    // The kind of a reserved word or symbol.
    pub fn reserved(word: &String) -> (r: Option<Kind>)
        ensures
            r == reserved_kind(word@),
    {
        let w = word.as_str();
        if same_text(w, "fn") || same_text(w, "fun") {
            Some(Kind::FunctionDefine)
        } else if same_text(w, "let") || same_text(w, "imut") {
            Some(Kind::ImmutableDefine)
        } else if same_text(w, "var") || same_text(w, "mut") {
            Some(Kind::MutableDefine)
        } else if same_text(w, "=") {
            Some(Kind::Assign)
        } else if same_text(w, "begin") || same_text(w, "{") {
            Some(Kind::Begin)
        } else if same_text(w, "end") || same_text(w, "}") {
            Some(Kind::End)
        } else if same_text(w, "return") {
            Some(Kind::Return)
        } else if same_text(w, "print") {
            Some(Kind::StdOut)
        } else if same_text(w, "while") {
            Some(Kind::While)
        } else if same_text(w, "if") {
            Some(Kind::If)
        } else if same_text(w, "else") {
            Some(Kind::Else)
        } else if same_text(w, "true") || same_text(w, "false") {
            Some(Kind::Bolean)
        } else if same_text(w, "or") || same_text(w, "||") || same_text(w, "and") || same_text(w, "&&") {
            Some(Kind::Comparison)
        } else if same_text(w, "==") || same_text(w, "!=") || same_text(w, ">") || same_text(w, "<") {
            Some(Kind::Comparison)
        } else {
            None
        }
    }
}


proof fn lemma_run_end(cs: Seq<char>, i: int, word: bool)
    requires
        0 <= i <= cs.len(),
    ensures
        i <= run_end(cs, i, word) <= cs.len(),
    decreases cs.len() - i,
{
    if i < cs.len() {
        lemma_run_end(cs, i + 1, word);
    }
}

/// Each token read moves the position forward, and never past the end.
pub proof fn lemma_scan_advances(cs: Seq<char>, pos: int)
    requires
        0 <= pos <= cs.len(),
    ensures
        pos <= scan(cs, pos).1 <= cs.len(),
        scan(cs, pos).0 is Some ==> scan(cs, pos).1 > pos,
    decreases cs.len() - pos,
{
    if pos < cs.len() {
        let k = char_kind(Some(cs[pos]));
        if k == Kind::Space {
            lemma_scan_advances(cs, pos + 1);
        } else if k == Kind::Alphanum {
            lemma_run_end(cs, pos + 1, true);
        } else if k == Kind::Integer {
            lemma_run_end(cs, pos + 1, false);
        }
    }
}

fn continues_run(c: char, word: bool) -> (r: bool)
    ensures
        r == (if word { word_char(c) } else { char_kind(Some(c)) == Kind::Integer }),
{
    let k = Kind::classify(&Some(c));
    if word {
        k == Kind::Alphanum || k == Kind::Integer
    } else {
        k == Kind::Integer
    }
}

fn run_end_of(cs: &Vec<char>, i: usize, word: bool) -> (e: usize)
    requires
        i <= cs@.len(),
    ensures
        e == run_end(cs@, i as int, word),
        i <= e <= cs@.len(),
{
    let mut j = i;
    while j < cs.len() && continues_run(cs[j], word)
        invariant
            i <= j <= cs@.len(),
            run_end(cs@, i as int, word) == run_end(cs@, j as int, word),
        decreases cs.len() - j,
    {
        j = j + 1;
    }
    j
}

fn slice_of(cs: &Vec<char>, from: usize, to: usize) -> (r: Vec<char>)
    requires
        from <= to <= cs@.len(),
    ensures
        r@ == cs@.subrange(from as int, to as int),
{
    let mut r: Vec<char> = Vec::new();
    let mut i = from;
    while i < to
        invariant
            from <= i <= to,
            to <= cs@.len(),
            r@ == cs@.subrange(from as int, i as int),
        decreases to - i,
    {
        r.push(cs[i]);
        i = i + 1;
        assert(r@ =~= cs@.subrange(from as int, i as int));
    }
    r
}

/// The models of a sequence of tokens.
pub open spec fn tokens_view(s: Seq<Token>) -> Seq<TokenV> {
    s.map_values(|t: Token| t@)
}

/// The model of an optional token.
pub open spec fn opt_token(t: Option<Token>) -> Option<TokenV> {
    match t {
        Some(t) => Some(t@),
        None => None,
    }
}

/// Reads tokens off a text, one at a time, with one token of lookahead.
pub struct Tokenizer {
    text: String,
    chars: Vec<char>,
    position: usize,
    current: Option<Token>,
}

impl Tokenizer {
    /// The characters of the text.
    pub closed spec fn chars(&self) -> Seq<char> {
        self.chars@
    }

    /// Where reading stands in the text.
    pub closed spec fn pos(&self) -> int {
        self.position as int
    }

    /// The token read ahead and not yet consumed, if any.
    pub closed spec fn lookahead(&self) -> Option<TokenV> {
        opt_token(self.current)
    }

    pub closed spec fn wf(&self) -> bool {
        &&& self.chars@ == self.text@
        &&& self.position <= self.chars@.len()
    }

    pub proof fn lemma_wf(&self)
        requires
            self.wf(),
        ensures
            0 <= self.pos() <= self.chars().len(),
    {
    }

    pub fn new(text: String) -> (r: Self)
        ensures
            r.wf(),
            r.chars() == text@,
            r.pos() == 0,
            r.lookahead() is None,
    {
        let chars = chars_of(text.as_str());
        Tokenizer { text, chars, position: 0, current: None }
    }

    /// The character at the reading position, if any.
    pub fn current(&self) -> (r: Option<char>)
        requires
            self.wf(),
        ensures
            r == if self.pos() < self.chars().len() { Some(self.chars()[self.pos()]) } else { None::<char> },
    {
        if self.position < self.chars.len() {
            Some(self.chars[self.position])
        } else {
            None
        }
    }

    /// Reads the next token, past any white space; `None` at the end of the text.
    pub fn next(&mut self) -> (r: Option<Token>)
        requires
            old(self).wf(),
        ensures
            final(self).wf(),
            final(self).chars() == old(self).chars(),
            final(self).lookahead() == old(self).lookahead(),
            opt_token(r) == scan(old(self).chars(), old(self).pos()).0,
            final(self).pos() == scan(old(self).chars(), old(self).pos()).1,
    {
        let n = self.chars.len();
        let mut p = self.position;
        while p < n && Kind::classify(&Some(self.chars[p])) == Kind::Space
            invariant
                self.wf(),
                n == self.chars@.len(),
                old(self).position <= p <= n,
                self == old(self),
                scan(self.chars@, old(self).position as int) == scan(self.chars@, p as int),
            decreases n - p,
        {
            p = p + 1;
        }
        if p >= n {
            self.position = p;
            return None;
        }
        let c = self.chars[p];
        let k = Kind::classify(&Some(c));
        if k == Kind::Alphanum || k == Kind::Integer {
            let word = k == Kind::Alphanum;
            let e = run_end_of(&self.chars, p + 1, word);
            let w = string_of(&slice_of(&self.chars, p, e));
            let kind = if word {
                match Kind::reserved(&w) {
                    Some(r) => r,
                    None => Kind::ID,
                }
            } else {
                Kind::Integer
            };
            self.position = e;
            Some(Token { kind, value: w })
        } else if k == Kind::Assign || k == Kind::Comparison {
            if p + 1 < n {
                let w2 = string_of(&slice_of(&self.chars, p, p + 2));
                if let Some(r) = Kind::reserved(&w2) {
                    self.position = p + 2;
                    return Some(Token { kind: r, value: w2 });
                }
            }
            let w1 = string_of(&slice_of(&self.chars, p, p + 1));
            let kind = match Kind::reserved(&w1) {
                Some(r) => r,
                None => Kind::Unknown,
            };
            self.position = p + 1;
            Some(Token { kind, value: w1 })
        } else {
            let w1 = string_of(&slice_of(&self.chars, p, p + 1));
            self.position = p + 1;
            Some(Token { kind: k, value: w1 })
        }
    }

    /// Reads a token into the lookahead, unless one is there already; returns the
    /// tokenizer, to chain a call.
    pub fn advance(&mut self) -> (r: &mut Self)
        requires
            old(self).wf(),
        ensures
            r.wf(),
            r.chars() == old(self).chars(),
            old(self).lookahead() is Some ==> *r == *old(self),
            old(self).lookahead() is None ==> r.lookahead() == scan(old(self).chars(), old(self).pos()).0
                && r.pos() == scan(old(self).chars(), old(self).pos()).1,
            *final(self) == *final(r),
    {
        if self.current.is_none() {
            self.current = self.next();
        }
        self
    }

    /// The token in the lookahead, left there.
    pub fn get(&mut self) -> (r: Option<Token>)
        ensures
            *final(self) == *old(self),
            opt_token(r) == old(self).lookahead(),
    {
        match &self.current {
            Some(t) => Some(t.copy()),
            None => None,
        }
    }

    /// The token that reading would give next, without reading it.
    pub fn peek(&mut self, next: usize) -> (r: Option<Token>)
        requires
            old(self).wf(),
        ensures
            final(self).wf(),
            final(self).chars() == old(self).chars(),
            final(self).pos() == old(self).pos(),
            final(self).lookahead() == old(self).lookahead(),
            opt_token(r) == scan(old(self).chars(), old(self).pos()).0,
    {
        let curr_position = self.position;
        let r = self.next();
        self.position = curr_position;
        r
    }

    /// Takes the token in the lookahead, which must be of `expected_kind`: a parse
    /// fault when it is of another kind, or when there is none.
    pub fn consume(&mut self, expected_kind: Kind) -> (r: Result<Token, Fault>)
        requires
            old(self).wf(),
        ensures
            final(self).wf(),
            final(self).chars() == old(self).chars(),
            final(self).pos() == old(self).pos(),
            final(self).lookahead() is None,
            match old(self).lookahead() {
                Some(t) => if t.kind == expected_kind {
                    r matches Ok(tok) && tok@ == t
                } else {
                    r matches Err(f) && f@ == (FaultV {
                        kind: FaultKind::ParseError,
                        detail: t.text,
                        expected: Some(expected_kind),
                        position: old(self).pos() as nat,
                    })
                },
                None => r matches Err(f) && f@ == (FaultV {
                    kind: FaultKind::ParseError,
                    detail: "end of file"@,
                    expected: Some(expected_kind),
                    position: old(self).pos() as nat,
                }),
            },
    {
        let taken = self.current.take();
        match taken {
            Some(token) => {
                if token.kind != expected_kind {
                    Err(Fault::at(FaultKind::ParseError, token.value, Some(expected_kind), self.position))
                } else {
                    Ok(token)
                }
            },
            None => {
                let eof = string_of(&chars_of("end of file"));
                Err(Fault::at(FaultKind::ParseError, eof, Some(expected_kind), self.position))
            },
        }
    }
}

} // verus!
