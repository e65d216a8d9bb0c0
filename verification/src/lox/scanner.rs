//! The scanner: Lox source text to tokens, one at a time.
use vstd::prelude::*;

use super::token::{Token, TokenType};

verus! {

broadcast use vstd::string::is_ascii_spec_bytes;

/// A decimal digit.
pub open spec fn spec_is_digit(c: char) -> bool {
    '0' <= c <= '9'
}

/// A letter or an underscore.
pub open spec fn spec_is_alpha(c: char) -> bool {
    ('a' <= c <= 'z') || ('A' <= c <= 'Z') || c == '_'
}

/// Where skipping blanks, newlines and `//` comments from `cur` ends, and the
/// line count there; `in_comment` tells that `cur` lies inside a comment.
/// `None` where a `/` that does not start a comment is met, which the
/// scanner never gets past (and where a `/` ends the text, on which it fails).
pub open spec fn skip_ws(src: Seq<char>, cur: nat, line: nat, in_comment: bool) -> Option<(nat, nat)>
    decreases src.len() - cur,
{
    if cur >= src.len() {
        Some((cur, line))
    } else if in_comment {
        if src[cur as int] == '\n' {
            skip_ws(src, cur + 1, line + 1, false)
        } else {
            skip_ws(src, cur + 1, line, true)
        }
    } else {
        let c = src[cur as int];
        if c == ' ' || c == '\r' || c == '\t' {
            skip_ws(src, cur + 1, line, false)
        } else if c == '\n' {
            skip_ws(src, cur + 1, line + 1, false)
        } else if c == '/' {
            if cur + 1 >= src.len() {
                None
            } else if src[cur + 1int] == '/' {
                skip_ws(src, cur + 2, line, true)
            } else {
                None
            }
        } else {
            Some((cur, line))
        }
    }
}

/// The end of the run of digits from `i`.
pub open spec fn digits_end(src: Seq<char>, i: nat) -> nat
    decreases src.len() - i,
{
    if i < src.len() && spec_is_digit(src[i as int]) {
        digits_end(src, i + 1)
    } else {
        i
    }
}

/// The end of a number whose first digit is before `i`: its digits, then a
/// `.` and more digits where a digit follows the `.`; `None` where the text
/// ends right after the `.`, on which the scanner fails.
pub open spec fn number_end(src: Seq<char>, i: nat) -> Option<nat> {
    let d = digits_end(src, i);
    if d < src.len() && src[d as int] == '.' {
        if d + 1 >= src.len() {
            None
        } else if spec_is_digit(src[d + 1int]) {
            Some(digits_end(src, d + 1))
        } else {
            Some(d)
        }
    } else {
        Some(d)
    }
}

/// The end of the run of letters, digits and underscores from `i`.
pub open spec fn ident_end(src: Seq<char>, i: nat) -> nat
    decreases src.len() - i,
{
    if i < src.len() && (spec_is_alpha(src[i as int]) || spec_is_digit(src[i as int])) {
        ident_end(src, i + 1)
    } else {
        i
    }
}

/// Where a string whose body starts at `i` closes (the index of the closing
/// quote, or the end of the text), and the line count there.
pub open spec fn string_end(src: Seq<char>, i: nat, line: nat) -> (nat, nat)
    decreases src.len() - i,
{
    if i >= src.len() || src[i as int] == '"' {
        (i, line)
    } else {
        string_end(src, i + 1, if src[i as int] == '\n' { line + 1 } else { line })
    }
}

/// The kind of an identifier: a keyword the scanner knows, or a plain name.
pub open spec fn keyword_type(w: Seq<char>) -> TokenType {
    if w == seq!['a', 'n', 'd'] {
        TokenType::And
    } else if w == seq!['c', 'l', 'a', 's', 's'] {
        TokenType::Class
    } else if w == seq!['e', 'l', 's', 'e'] {
        TokenType::Else
    } else if w == seq!['f', 'a', 'l', 's', 'e'] {
        TokenType::False
    } else if w == seq!['f', 'o', 'r'] {
        TokenType::For
    } else if w == seq!['f', 'u', 'n'] {
        TokenType::Fun
    } else if w == seq!['n', 'i', 'l'] {
        TokenType::Nil
    } else if w == seq!['p', 'r', 'i', 'n', 't'] {
        TokenType::Print
    } else if w == seq!['i', 'f'] {
        TokenType::If
    } else if w == seq!['t', 'h', 'i', 's'] {
        TokenType::This
    } else if w == seq!['t', 'r', 'u', 'e'] {
        TokenType::True
    } else if w == seq!['v', 'a', 'r'] {
        TokenType::Var
    } else if w == seq!['o', 'r'] {
        TokenType::Or
    } else if w == seq!['r', 'e', 't', 'u', 'r', 'n'] {
        TokenType::Return
    } else if w == seq!['s', 'u', 'p', 'e', 'r'] {
        TokenType::Super
    } else if w == seq!['w', 'h', 'i', 'l', 'e'] {
        TokenType::While
    } else {
        TokenType::Identifier
    }
}

/// One step of the scanner: the token and where the scanner stands after it.
pub ghost struct ScanStep {
    pub typ: TokenType,
    pub line: nat,
    pub text: Seq<char>,
    pub start: nat,
    pub current: nat,
    pub next_line: nat,
}

/// A token whose text is the source from `start` to `end`.
pub open spec fn lexeme(src: Seq<char>, typ: TokenType, line: nat, start: nat, end: nat) -> ScanStep {
    ScanStep { typ, line, text: src.subrange(start as int, end as int), start, current: end, next_line: line }
}

/// The one-character token a character makes, if it makes one.
pub open spec fn single_char_type(c: char) -> Option<TokenType> {
    if c == '(' {
        Some(TokenType::LeftParen)
    } else if c == ')' {
        Some(TokenType::RightParen)
    } else if c == '{' {
        Some(TokenType::LeftBrace)
    } else if c == '}' {
        Some(TokenType::RightBrace)
    } else if c == ';' {
        Some(TokenType::SemiColon)
    } else if c == ',' {
        Some(TokenType::Comma)
    } else if c == '.' {
        Some(TokenType::Dot)
    } else if c == '-' {
        Some(TokenType::Minus)
    } else if c == '+' {
        Some(TokenType::Plus)
    } else if c == '/' {
        Some(TokenType::Slash)
    } else if c == '*' {
        Some(TokenType::Star)
    } else {
        None
    }
}

/// The kinds of token of `!`, `=`, `>`, `<`: alone, and followed by `=`.
pub open spec fn operator_types(c: char) -> Option<(TokenType, TokenType)> {
    if c == '!' {
        Some((TokenType::Bang, TokenType::BangEqual))
    } else if c == '=' {
        Some((TokenType::Equal, TokenType::EqualEqual))
    } else if c == '>' {
        Some((TokenType::Greater, TokenType::GreaterEqual))
    } else if c == '<' {
        Some((TokenType::Less, TokenType::LessEqual))
    } else {
        None
    }
}

/// The next token of `src` from `cur` at line `line`; `None` where the scanner
/// would not return.
pub open spec fn scan(src: Seq<char>, cur: nat, line: nat) -> Option<ScanStep> {
    match skip_ws(src, cur, line, false) {
        None => None,
        Some((s, l)) => if s >= src.len() {
            Some(lexeme(src, TokenType::Eof, l, s, s))
        } else {
            let c = src[s as int];
            let n = s + 1;
            if spec_is_digit(c) {
                match number_end(src, n) {
                    Some(e) => Some(lexeme(src, TokenType::Number, l, s, e)),
                    None => None,
                }
            } else if spec_is_alpha(c) {
                let e = ident_end(src, n);
                Some(lexeme(src, keyword_type(src.subrange(s as int, e as int)), l, s, e))
            } else if single_char_type(c) is Some {
                Some(lexeme(src, single_char_type(c).unwrap(), l, s, n))
            } else if operator_types(c) is Some {
                if n < src.len() && src[n as int] == '=' {
                    Some(lexeme(src, operator_types(c).unwrap().1, l, s, n + 1))
                } else {
                    Some(lexeme(src, operator_types(c).unwrap().0, l, s, n))
                }
            } else if c == '"' {
                let (q, l2) = string_end(src, n, l);
                if q >= src.len() {
                    Some(ScanStep { typ: TokenType::Error, line: l2, text: "Unterminated string"@, start: s, current: q, next_line: l2 })
                } else {
                    Some(ScanStep { typ: TokenType::String, line: l2, text: src.subrange(s as int, q + 1int), start: s, current: q + 1, next_line: l2 })
                }
            } else {
                Some(ScanStep { typ: TokenType::Error, line: l, text: "Unexpected character"@, start: s, current: n, next_line: l })
            }
        },
    }
}

/// Reads tokens from ASCII source text.
pub struct Scanner<'a> {
    source: &'a str,
    start: usize,
    current: usize,
    line: usize,
}

impl<'a> Scanner<'a> {
    /// The text scanned.
    pub closed spec fn src(&self) -> Seq<char> {
        self.source@
    }

    /// Where the token being scanned starts.
    pub closed spec fn spec_start(&self) -> nat {
        self.start as nat
    }

    /// Where scanning has got to.
    pub closed spec fn spec_current(&self) -> nat {
        self.current as nat
    }

    /// The line scanning has got to.
    pub closed spec fn spec_line(&self) -> nat {
        self.line as nat
    }

    /// The source is ASCII, the start of the token lies before the position,
    /// the position within the text, and there are no more lines than
    /// characters read.
    pub closed spec fn wf(&self) -> bool {
        &&& self.source.is_ascii()
        &&& self.start <= self.current <= self.source@.len()
        &&& self.line <= self.current
        &&& self.source@.len() <= usize::MAX
    }

    /// A scanner at the start of `source`.
    pub fn new(source: &'a str) -> (r: Self)
        requires
            source.is_ascii(),
            source@.len() <= usize::MAX,
        ensures
            r.wf(),
            r.src() == source@,
            r.spec_start() == 0,
            r.spec_current() == 0,
            r.spec_line() == 0,
    {
        Self { source, start: 0, current: 0, line: 0 }
    }

    /// Whether `c` is a decimal digit.
    pub fn is_digit(c: char) -> (r: bool)
        ensures
            r == spec_is_digit(c),
    {
        match c {
            '0'..='9' => true,
            _ => false,
        }
    }

    /// Whether `c` is a letter or an underscore.
    pub fn is_alpha(c: char) -> (r: bool)
        ensures
            r == spec_is_alpha(c),
    {
        match c {
            'a'..='z' | 'A'..='Z' | '_' => true,
            _ => false,
        }
    }

    /// The next token.
    pub fn scan_token(&mut self) -> (tok: Token<'a>)
        requires
            old(self).wf(),
            scan(old(self).src(), old(self).spec_current(), old(self).spec_line()) is Some,
        ensures
            final(self).wf(),
            final(self).src() == old(self).src(),
            ({
                let st = scan(old(self).src(), old(self).spec_current(), old(self).spec_line()).unwrap();
                &&& tok.typ == st.typ
                &&& tok.line == st.line
                &&& tok.source@ == st.text
                &&& final(self).spec_start() == st.start
                &&& final(self).spec_current() == st.current
                &&& final(self).spec_line() == st.next_line
            }),
    {
        let ghost src = self.src();
        self.skip_whitespace();
        self.start = self.current;
        if self.is_at_end() {
            return self.make_token(TokenType::Eof);
        }
        let c = self.advance();
        if Self::is_digit(c) {
            return self.number();
        }
        if Self::is_alpha(c) {
            return self.identifier();
        }
        match c {
            '(' => self.make_token(TokenType::LeftParen),
            ')' => self.make_token(TokenType::RightParen),
            '{' => self.make_token(TokenType::LeftBrace),
            '}' => self.make_token(TokenType::RightBrace),
            ';' => self.make_token(TokenType::SemiColon),
            ',' => self.make_token(TokenType::Comma),
            '.' => self.make_token(TokenType::Dot),
            '-' => self.make_token(TokenType::Minus),
            '+' => self.make_token(TokenType::Plus),
            '/' => self.make_token(TokenType::Slash),
            '*' => self.make_token(TokenType::Star),
            '!' => {
                if self.peek() == '=' {
                    self.advance();
                    self.make_token(TokenType::BangEqual)
                } else {
                    self.make_token(TokenType::Bang)
                }
            },
            '=' => {
                if self.peek() == '=' {
                    self.advance();
                    self.make_token(TokenType::EqualEqual)
                } else {
                    self.make_token(TokenType::Equal)
                }
            },
            '>' => {
                if self.peek() == '=' {
                    self.advance();
                    self.make_token(TokenType::GreaterEqual)
                } else {
                    self.make_token(TokenType::Greater)
                }
            },
            '<' => {
                if self.peek() == '=' {
                    self.advance();
                    self.make_token(TokenType::LessEqual)
                } else {
                    self.make_token(TokenType::Less)
                }
            },
            '"' => self.string(),
            _ => self.error_token("Unexpected character"),
        }
    }

    fn advance(&mut self) -> (c: char)
        requires
            old(self).wf(),
            old(self).current < old(self).source@.len(),
        ensures
            final(self).wf(),
            c == old(self).source@[old(self).current as int],
            final(self).source == old(self).source,
            final(self).start == old(self).start,
            final(self).line == old(self).line,
            final(self).current == old(self).current + 1,
    {
        let c = self.source.get_char(self.current);
        self.current = self.current + 1;
        c
    }

    fn peek(&self) -> (c: char)
        requires
            self.wf(),
        ensures
            self.current < self.source@.len() ==> c == self.source@[self.current as int],
            self.current >= self.source@.len() ==> c == '\0',
    {
        if self.is_at_end() {
            return '\0';
        }
        self.source.get_char(self.current)
    }

    fn peek_next(&self) -> (c: char)
        requires
            self.wf(),
            self.current < self.source@.len() ==> self.current + 1 < self.source@.len(),
        ensures
            self.current < self.source@.len() ==> c == self.source@[self.current + 1],
            self.current >= self.source@.len() ==> c == '\0',
    {
        if self.is_at_end() {
            return '\0';
        }
        self.source.get_char(self.current + 1)
    }

    fn skip_whitespace(&mut self)
        requires
            old(self).wf(),
            skip_ws(old(self).source@, old(self).current as nat, old(self).line as nat, false) is Some,
        ensures
            final(self).wf(),
            final(self).source == old(self).source,
            final(self).start == old(self).start,
            skip_ws(old(self).source@, old(self).current as nat, old(self).line as nat, false) == Some(
                (final(self).current as nat, final(self).line as nat),
            ),
    {
        let ghost target = skip_ws(self.source@, self.current as nat, self.line as nat, false);
        loop
            invariant
                self.wf(),
                self.source == old(self).source,
                self.start == old(self).start,
                target == skip_ws(old(self).source@, old(self).current as nat, old(self).line as nat, false),
                target == skip_ws(self.source@, self.current as nat, self.line as nat, false),
                target is Some,
            decreases self.source@.len() - self.current,
        {
            let c = self.peek();
            if c == ' ' || c == '\r' || c == '\t' {
                self.advance();
            } else if c == '\n' {
                self.advance();
                self.line = self.line + 1;
            } else if c == '/' {
                if self.peek_next() == '/' {
                    let ghost c0 = self.current as nat;
                    let ghost l0 = self.line as nat;
                    proof {
                        let src = self.source@;
                        assert(skip_ws(src, c0 + 1, l0, true) == skip_ws(src, c0 + 2, l0, true));
                        assert(skip_ws(src, c0, l0, true) == skip_ws(src, c0 + 1, l0, true));
                    }
                    while !self.is_at_end() && self.peek() != '\n'
                        invariant
                            self.wf(),
                            self.source == old(self).source,
                            self.start == old(self).start,
                            self.line == l0,
                            c0 < self.source@.len(),
                            self.source@[c0 as int] == '/',
                            self.current >= c0,
                            target == skip_ws(self.source@, self.current as nat, self.line as nat, true),
                        decreases self.source@.len() - self.current,
                    {
                        self.advance();
                    }
                    proof {
                        let src = self.source@;
                        let cur = self.current as nat;
                        if cur < src.len() {
                            assert(src[cur as int] == '\n');
                            assert(skip_ws(src, cur, l0, true) == skip_ws(src, cur + 1, l0 + 1, false));
                            assert(skip_ws(src, cur, l0, false) == skip_ws(src, cur + 1, l0 + 1, false));
                        }
                        assert(cur > c0);
                    }
                } else {
                    return;
                }
            } else {
                return;
            }
        }
    }

    fn is_at_end(&self) -> (r: bool)
        requires
            self.wf(),
        ensures
            r == (self.current >= self.source@.len()),
    {
        proof {
            vstd::string::is_ascii_spec_bytes(self.source);
        }
        self.current >= self.source.len()
    }

    fn string(&mut self) -> (tok: Token<'a>)
        requires
            old(self).wf(),
            old(self).start < old(self).current,
        ensures
            final(self).wf(),
            final(self).source == old(self).source,
            final(self).start == old(self).start,
            ({
                let (q, l2) = string_end(old(self).source@, old(self).current as nat, old(self).line as nat);
                &&& final(self).line == l2
                &&& tok.line == l2
                &&& q >= old(self).source@.len() ==> {
                    &&& tok.typ == TokenType::Error
                    &&& tok.source@ == "Unterminated string"@
                    &&& final(self).current == q
                }
                &&& q < old(self).source@.len() ==> {
                    &&& tok.typ == TokenType::String
                    &&& tok.source@ == old(self).source@.subrange(old(self).start as int, q + 1int)
                    &&& final(self).current == q + 1
                }
            }),
    {
        let ghost target = string_end(self.source@, self.current as nat, self.line as nat);
        while !self.is_at_end() && self.peek() != '"'
            invariant
                self.wf(),
                self.source == old(self).source,
                self.start == old(self).start,
                target == string_end(self.source@, self.current as nat, self.line as nat),
            decreases self.source@.len() - self.current,
        {
            if self.peek() == '\n' {
                self.advance();
                self.line = self.line + 1;
            } else {
                self.advance();
            }
        }
        if self.is_at_end() {
            return self.error_token("Unterminated string");
        }
        self.advance();
        self.make_token(TokenType::String)
    }

    fn number(&mut self) -> (tok: Token<'a>)
        requires
            old(self).wf(),
            number_end(old(self).source@, old(self).current as nat) is Some,
        ensures
            final(self).wf(),
            final(self).source == old(self).source,
            final(self).start == old(self).start,
            final(self).line == old(self).line,
            number_end(old(self).source@, old(self).current as nat) == Some(final(self).current as nat),
            tok.typ == TokenType::Number,
            tok.line == old(self).line,
            tok.source@ == old(self).source@.subrange(old(self).start as int, final(self).current as int),
    {
        let ghost src = self.source@;
        let ghost i0 = self.current as nat;
        while Self::is_digit(self.peek())
            invariant
                self.wf(),
                src == self.source@,
                self.source == old(self).source,
                self.start == old(self).start,
                self.line == old(self).line,
                digits_end(src, i0) == digits_end(src, self.current as nat),
            decreases self.source@.len() - self.current,
        {
            self.advance();
        }
        if self.peek() == '.' && Self::is_digit(self.peek_next()) {
            self.advance();
            let ghost i1 = self.current as nat;
            while Self::is_digit(self.peek())
                invariant
                    self.wf(),
                    src == self.source@,
                    self.source == old(self).source,
                    self.start == old(self).start,
                    self.line == old(self).line,
                    digits_end(src, i1) == digits_end(src, self.current as nat),
                decreases self.source@.len() - self.current,
            {
                self.advance();
            }
        }
        self.make_token(TokenType::Number)
    }

    fn identifier(&mut self) -> (tok: Token<'a>)
        requires
            old(self).wf(),
            old(self).start < old(self).current,
            spec_is_alpha(old(self).source@[old(self).start as int]),
        ensures
            final(self).wf(),
            final(self).source == old(self).source,
            final(self).start == old(self).start,
            final(self).line == old(self).line,
            final(self).current == ident_end(old(self).source@, old(self).current as nat),
            tok.typ == keyword_type(old(self).source@.subrange(old(self).start as int, final(self).current as int)),
            tok.line == old(self).line,
            tok.source@ == old(self).source@.subrange(old(self).start as int, final(self).current as int),
    {
        let ghost src = self.source@;
        let ghost i0 = self.current as nat;
        while Self::is_alpha(self.peek()) || Self::is_digit(self.peek())
            invariant
                self.wf(),
                src == self.source@,
                self.source == old(self).source,
                self.start == old(self).start,
                self.line == old(self).line,
                self.start < self.current,
                ident_end(src, i0) == ident_end(src, self.current as nat),
            decreases self.source@.len() - self.current,
        {
            self.advance();
        }
        let typ = self.identifier_type();
        self.make_token(typ)
    }

    fn identifier_type(&self) -> (r: TokenType)
        requires
            self.wf(),
            self.start < self.current,
            spec_is_alpha(self.source@[self.start as int]),
        ensures
            r == keyword_type(self.source@.subrange(self.start as int, self.current as int)),
    {
        let ghost w = self.source@.subrange(self.start as int, self.current as int);
        let c = self.source.get_char(self.start);
        proof {
            lemma_keyword_by_prefix(w);
            assert(w[0] == c);
            assert(w.len() >= 2 ==> w[1] == self.source@[self.start + 1]);
            assert(w.subrange(1, w.len() as int) =~= self.source@.subrange(self.start + 1, self.current as int));
            assert(w.len() >= 2 ==> w.subrange(2, w.len() as int) =~= self.source@.subrange(self.start + 2, self.current as int));
            reveal_strlit("nd");
            reveal_strlit("lass");
            reveal_strlit("lse");
            reveal_strlit("r");
            reveal_strlit("n");
            reveal_strlit("il");
            reveal_strlit("rint");
            reveal_strlit("f");
            reveal_strlit("is");
            reveal_strlit("ue");
            reveal_strlit("ar");
            reveal_strlit("eturn");
            reveal_strlit("uper");
            reveal_strlit("hile");
            assert(("nd")@ =~= seq!['n', 'd']);
            assert(("lass")@ =~= seq!['l', 'a', 's', 's']);
            assert(("lse")@ =~= seq!['l', 's', 'e']);
            assert(("r")@ =~= seq!['r']);
            assert(("n")@ =~= seq!['n']);
            assert(("il")@ =~= seq!['i', 'l']);
            assert(("rint")@ =~= seq!['r', 'i', 'n', 't']);
            assert(("f")@ =~= seq!['f']);
            assert(("is")@ =~= seq!['i', 's']);
            assert(("ue")@ =~= seq!['u', 'e']);
            assert(("ar")@ =~= seq!['a', 'r']);
            assert(("eturn")@ =~= seq!['e', 't', 'u', 'r', 'n']);
            assert(("uper")@ =~= seq!['u', 'p', 'e', 'r']);
            assert(("hile")@ =~= seq!['h', 'i', 'l', 'e']);
        }
        match c {
            'a' => if self.check_rest_keyword(1, "nd") {
                TokenType::And
            } else {
                TokenType::Identifier
            },
            'c' => if self.check_rest_keyword(1, "lass") {
                TokenType::Class
            } else {
                TokenType::Identifier
            },
            'e' => if self.check_rest_keyword(1, "lse") {
                TokenType::Else
            } else {
                TokenType::Identifier
            },
            'f' => if self.current - self.start >= 2 {
                match self.source.get_char(self.start + 1) {
                    'a' => if self.check_rest_keyword(2, "lse") {
                        TokenType::False
                    } else {
                        TokenType::Identifier
                    },
                    'o' => if self.check_rest_keyword(2, "r") {
                        TokenType::For
                    } else {
                        TokenType::Identifier
                    },
                    'u' => if self.check_rest_keyword(2, "n") {
                        TokenType::Fun
                    } else {
                        TokenType::Identifier
                    },
                    _ => TokenType::Identifier,
                }
            } else {
                TokenType::Identifier
            },
            'n' => if self.check_rest_keyword(1, "il") {
                TokenType::Nil
            } else {
                TokenType::Identifier
            },
            'p' => if self.check_rest_keyword(1, "rint") {
                TokenType::Print
            } else {
                TokenType::Identifier
            },
            'i' => if self.check_rest_keyword(1, "f") {
                TokenType::If
            } else {
                TokenType::Identifier
            },
            't' => if self.current - self.start >= 2 {
                match self.source.get_char(self.start + 1) {
                    'h' => if self.check_rest_keyword(2, "is") {
                        TokenType::This
                    } else {
                        TokenType::Identifier
                    },
                    'r' => if self.check_rest_keyword(2, "ue") {
                        TokenType::True
                    } else {
                        TokenType::Identifier
                    },
                    _ => TokenType::Identifier,
                }
            } else {
                TokenType::Identifier
            },
            'v' => if self.check_rest_keyword(1, "ar") {
                TokenType::Var
            } else {
                TokenType::Identifier
            },
            'o' => if self.check_rest_keyword(1, "r") {
                TokenType::Or
            } else {
                TokenType::Identifier
            },
            'r' => if self.check_rest_keyword(1, "eturn") {
                TokenType::Return
            } else {
                TokenType::Identifier
            },
            's' => if self.check_rest_keyword(1, "uper") {
                TokenType::Super
            } else {
                TokenType::Identifier
            },
            'w' => if self.check_rest_keyword(1, "hile") {
                TokenType::While
            } else {
                TokenType::Identifier
            },
            _ => TokenType::Identifier,
        }
    }

    /// Whether the token from `offset` on is `rest`.
    fn check_rest_keyword(&self, offset: usize, rest: &str) -> (r: bool)
        requires
            self.wf(),
            self.start + offset <= self.current,
        ensures
            r == (self.source@.subrange(self.start + offset, self.current as int) == rest@),
    {
        let from = self.start + offset;
        if self.current - from != rest.unicode_len() {
            return false;
        }
        let mut i: usize = 0;
        while i < self.current - from
            invariant
                self.wf(),
                from == self.start + offset,
                from <= self.current,
                self.current - from == rest@.len(),
                i <= self.current - from,
                forall|j: int| 0 <= j < i ==> self.source@[from + j] == rest@[j],
            decreases self.current - from - i,
        {
            if self.source.get_char(from + i) != rest.get_char(i) {
                assert(self.source@.subrange(from as int, self.current as int)[i as int] != rest@[i as int]);
                return false;
            }
            i = i + 1;
        }
        assert(self.source@.subrange(from as int, self.current as int) =~= rest@);
        true
    }

    fn make_token(&self, typ: TokenType) -> (tok: Token<'a>)
        requires
            self.wf(),
        ensures
            tok.typ == typ,
            tok.line == self.line,
            tok.source@ == self.source@.subrange(self.start as int, self.current as int),
    {
        Token { typ, line: self.line, source: self.source.substring_ascii(self.start, self.current) }
    }

    fn error_token(&self, message: &'static str) -> (tok: Token<'a>)
        requires
            self.wf(),
        ensures
            tok.typ == TokenType::Error,
            tok.line == self.line,
            tok.source@ == message@,
    {
        Token { typ: TokenType::Error, line: self.line, source: message }
    }
}

/// The kind of an identifier, decided as the scanner decides it: by its first
/// character, then its second where two keywords share the first, then the rest.
pub open spec fn keyword_by_prefix(w: Seq<char>) -> TokenType {
    let rest1 = w.subrange(1, w.len() as int);
    let rest2 = w.subrange(2, w.len() as int);
    if w[0] == 'a' {
        if rest1 == seq!['n', 'd'] { TokenType::And } else { TokenType::Identifier }
    } else if w[0] == 'c' {
        if rest1 == seq!['l', 'a', 's', 's'] { TokenType::Class } else { TokenType::Identifier }
    } else if w[0] == 'e' {
        if rest1 == seq!['l', 's', 'e'] { TokenType::Else } else { TokenType::Identifier }
    } else if w[0] == 'f' {
        if w.len() >= 2 {
            if w[1] == 'a' {
                if rest2 == seq!['l', 's', 'e'] { TokenType::False } else { TokenType::Identifier }
            } else if w[1] == 'o' {
                if rest2 == seq!['r'] { TokenType::For } else { TokenType::Identifier }
            } else if w[1] == 'u' {
                if rest2 == seq!['n'] { TokenType::Fun } else { TokenType::Identifier }
            } else {
                TokenType::Identifier
            }
        } else {
            TokenType::Identifier
        }
    } else if w[0] == 'n' {
        if rest1 == seq!['i', 'l'] { TokenType::Nil } else { TokenType::Identifier }
    } else if w[0] == 'p' {
        if rest1 == seq!['r', 'i', 'n', 't'] { TokenType::Print } else { TokenType::Identifier }
    } else if w[0] == 'i' {
        if rest1 == seq!['f'] { TokenType::If } else { TokenType::Identifier }
    } else if w[0] == 't' {
        if w.len() >= 2 {
            if w[1] == 'h' {
                if rest2 == seq!['i', 's'] { TokenType::This } else { TokenType::Identifier }
            } else if w[1] == 'r' {
                if rest2 == seq!['u', 'e'] { TokenType::True } else { TokenType::Identifier }
            } else {
                TokenType::Identifier
            }
        } else {
            TokenType::Identifier
        }
    } else if w[0] == 'v' {
        if rest1 == seq!['a', 'r'] { TokenType::Var } else { TokenType::Identifier }
    } else if w[0] == 'o' {
        if rest1 == seq!['r'] { TokenType::Or } else { TokenType::Identifier }
    } else if w[0] == 'r' {
        if rest1 == seq!['e', 't', 'u', 'r', 'n'] { TokenType::Return } else { TokenType::Identifier }
    } else if w[0] == 's' {
        if rest1 == seq!['u', 'p', 'e', 'r'] { TokenType::Super } else { TokenType::Identifier }
    } else if w[0] == 'w' {
        if rest1 == seq!['h', 'i', 'l', 'e'] { TokenType::While } else { TokenType::Identifier }
    } else {
        TokenType::Identifier
    }
}

proof fn lemma_keyword_by_prefix(w: Seq<char>)
    requires
        w.len() >= 1,
    ensures
        keyword_type(w) == keyword_by_prefix(w),
{
    let rest1 = w.subrange(1, w.len() as int);
    let rest2 = w.subrange(2, w.len() as int);
    if w[0] == 'a' {
        lemma_word_split(w, seq!['a', 'n', 'd'], 1);
        assert(seq!['a', 'n', 'd'].subrange(1, 3) =~= seq!['n', 'd']);
    } else if w[0] == 'c' {
        lemma_word_split(w, seq!['c', 'l', 'a', 's', 's'], 1);
        assert(seq!['c', 'l', 'a', 's', 's'].subrange(1, 5) =~= seq!['l', 'a', 's', 's']);
    } else if w[0] == 'e' {
        lemma_word_split(w, seq!['e', 'l', 's', 'e'], 1);
        assert(seq!['e', 'l', 's', 'e'].subrange(1, 4) =~= seq!['l', 's', 'e']);
    } else if w[0] == 'f' {
        if w.len() >= 2 {
            if w[1] == 'a' {
                lemma_word_split(w, seq!['f', 'a', 'l', 's', 'e'], 2);
                assert(seq!['f', 'a', 'l', 's', 'e'].subrange(2, 5) =~= seq!['l', 's', 'e']);
            } else if w[1] == 'o' {
                lemma_word_split(w, seq!['f', 'o', 'r'], 2);
                assert(seq!['f', 'o', 'r'].subrange(2, 3) =~= seq!['r']);
            } else if w[1] == 'u' {
                lemma_word_split(w, seq!['f', 'u', 'n'], 2);
                assert(seq!['f', 'u', 'n'].subrange(2, 3) =~= seq!['n']);
            }
        }
    } else if w[0] == 'n' {
        lemma_word_split(w, seq!['n', 'i', 'l'], 1);
        assert(seq!['n', 'i', 'l'].subrange(1, 3) =~= seq!['i', 'l']);
    } else if w[0] == 'p' {
        lemma_word_split(w, seq!['p', 'r', 'i', 'n', 't'], 1);
        assert(seq!['p', 'r', 'i', 'n', 't'].subrange(1, 5) =~= seq!['r', 'i', 'n', 't']);
    } else if w[0] == 'i' {
        lemma_word_split(w, seq!['i', 'f'], 1);
        assert(seq!['i', 'f'].subrange(1, 2) =~= seq!['f']);
    } else if w[0] == 't' {
        if w.len() >= 2 {
            if w[1] == 'h' {
                lemma_word_split(w, seq!['t', 'h', 'i', 's'], 2);
                assert(seq!['t', 'h', 'i', 's'].subrange(2, 4) =~= seq!['i', 's']);
            } else if w[1] == 'r' {
                lemma_word_split(w, seq!['t', 'r', 'u', 'e'], 2);
                assert(seq!['t', 'r', 'u', 'e'].subrange(2, 4) =~= seq!['u', 'e']);
            }
        }
    } else if w[0] == 'v' {
        lemma_word_split(w, seq!['v', 'a', 'r'], 1);
        assert(seq!['v', 'a', 'r'].subrange(1, 3) =~= seq!['a', 'r']);
    } else if w[0] == 'o' {
        lemma_word_split(w, seq!['o', 'r'], 1);
        assert(seq!['o', 'r'].subrange(1, 2) =~= seq!['r']);
    } else if w[0] == 'r' {
        lemma_word_split(w, seq!['r', 'e', 't', 'u', 'r', 'n'], 1);
        assert(seq!['r', 'e', 't', 'u', 'r', 'n'].subrange(1, 6) =~= seq!['e', 't', 'u', 'r', 'n']);
    } else if w[0] == 's' {
        lemma_word_split(w, seq!['s', 'u', 'p', 'e', 'r'], 1);
        assert(seq!['s', 'u', 'p', 'e', 'r'].subrange(1, 5) =~= seq!['u', 'p', 'e', 'r']);
    } else if w[0] == 'w' {
        lemma_word_split(w, seq!['w', 'h', 'i', 'l', 'e'], 1);
        assert(seq!['w', 'h', 'i', 'l', 'e'].subrange(1, 5) =~= seq!['h', 'i', 'l', 'e']);
    }
}

/// Two words that agree on their first `off` characters are equal exactly
/// when the rest of them are.
proof fn lemma_word_split(w: Seq<char>, k: Seq<char>, off: int)
    requires
        0 <= off <= w.len(),
        off <= k.len(),
        forall|i: int| 0 <= i < off ==> w[i] == k[i],
    ensures
        (w == k) == (w.subrange(off, w.len() as int) == k.subrange(off, k.len() as int)),
{
    if w.subrange(off, w.len() as int) == k.subrange(off, k.len() as int) {
        assert(w.subrange(off, w.len() as int).len() == k.subrange(off, k.len() as int).len());
        assert forall|i: int| 0 <= i < w.len() implies w[i] == k[i] by {
            if i >= off {
                assert(w.subrange(off, w.len() as int)[i - off] == k.subrange(off, k.len() as int)[i - off]);
            }
        }
        assert(w =~= k);
    }
}


/// Skipping blanks and comments never moves back, nor past the end of the text.
proof fn lemma_skip_ws_bounds(src: Seq<char>, cur: nat, line: nat, in_comment: bool)
    requires
        skip_ws(src, cur, line, in_comment) is Some,
    ensures
        ({
            let (s, l) = skip_ws(src, cur, line, in_comment).unwrap();
            &&& cur <= s
            &&& cur <= src.len() ==> s <= src.len()
            &&& line <= l
            &&& l - line <= s - cur
        }),
    decreases src.len() - cur,
{
    if cur < src.len() {
        if in_comment {
            if src[cur as int] == '\n' {
                lemma_skip_ws_bounds(src, cur + 1, line + 1, false);
            } else {
                lemma_skip_ws_bounds(src, cur + 1, line, true);
            }
        } else {
            let c = src[cur as int];
            if c == ' ' || c == '\r' || c == '\t' {
                lemma_skip_ws_bounds(src, cur + 1, line, false);
            } else if c == '\n' {
                lemma_skip_ws_bounds(src, cur + 1, line + 1, false);
            } else if c == '/' && cur + 1 < src.len() && src[cur + 1int] == '/' {
                lemma_skip_ws_bounds(src, cur + 2, line, true);
            }
        }
    }
}

/// A run of digits ends after where it starts, within the text.
proof fn lemma_digits_end_bounds(src: Seq<char>, i: nat)
    ensures
        i <= digits_end(src, i),
        i <= src.len() ==> digits_end(src, i) <= src.len(),
    decreases src.len() - i,
{
    if i < src.len() && spec_is_digit(src[i as int]) {
        lemma_digits_end_bounds(src, i + 1);
    }
}

/// A run of identifier characters ends after where it starts, within the text.
proof fn lemma_ident_end_bounds(src: Seq<char>, i: nat)
    ensures
        i <= ident_end(src, i),
        i <= src.len() ==> ident_end(src, i) <= src.len(),
    decreases src.len() - i,
{
    if i < src.len() && (spec_is_alpha(src[i as int]) || spec_is_digit(src[i as int])) {
        lemma_ident_end_bounds(src, i + 1);
    }
}

/// A string body ends after where it starts, within the text, having
/// counted no more lines than characters.
proof fn lemma_string_end_bounds(src: Seq<char>, i: nat, line: nat)
    ensures
        i <= string_end(src, i, line).0,
        i <= src.len() ==> string_end(src, i, line).0 <= src.len(),
        line <= string_end(src, i, line).1,
        string_end(src, i, line).1 - line <= string_end(src, i, line).0 - i,
    decreases src.len() - i,
{
    if !(i >= src.len() || src[i as int] == '"') {
        lemma_string_end_bounds(src, i + 1, if src[i as int] == '\n' { line + 1 } else { line });
    }
}

/// Every token but the end of the text moves the scanner forward, within the
/// text, and the line count grows by no more than the characters read.
pub proof fn lemma_scan_progress(src: Seq<char>, cur: nat, line: nat)
    requires
        cur <= src.len(),
        scan(src, cur, line) is Some,
    ensures
        ({
            let st = scan(src, cur, line).unwrap();
            &&& st.typ != TokenType::Eof ==> cur < st.current
            &&& cur <= st.current <= src.len()
            &&& line <= st.next_line
            &&& st.next_line - line <= st.current - cur
            &&& st.line == st.next_line
        }),
{
    lemma_skip_ws_bounds(src, cur, line, false);
    let (s, l) = skip_ws(src, cur, line, false).unwrap();
    if s < src.len() {
        let c = src[s as int];
        let n = s + 1;
        lemma_digits_end_bounds(src, n);
        let d = digits_end(src, n);
        if d + 1 < src.len() {
            lemma_digits_end_bounds(src, d + 1);
        }
        lemma_ident_end_bounds(src, n);
        lemma_string_end_bounds(src, n, l);
    }
}

/// The tokens of `src` from `cur` at line `line`, through the end-of-text
/// token: `None` where the scanner would not return; otherwise the tokens,
/// or the first error token (where a character or a string cannot be read).
pub open spec fn scan_all(src: Seq<char>, cur: nat, line: nat) -> Option<Result<Seq<ScanStep>, ScanStep>>
    decreases src.len() - cur,
{
    if cur > src.len() {
        None
    } else {
        match scan(src, cur, line) {
            None => None,
            Some(st) => if st.typ == TokenType::Eof {
                Some(Ok(seq![st]))
            } else if st.typ == TokenType::Error {
                Some(Err(st))
            } else {
                proof {
                    lemma_scan_progress(src, cur, line);
                }
                match scan_all(src, st.current, st.next_line) {
                    Some(Ok(rest)) => Some(Ok(seq![st] + rest)),
                    other => other,
                }
            },
        }
    }
}


/// A token stream read to its end ends with the one end-of-text token.
pub proof fn lemma_scan_all_ends(src: Seq<char>, cur: nat, line: nat)
    requires
        scan_all(src, cur, line) matches Some(Ok(_)),
    ensures
        scan_all(src, cur, line) matches Some(Ok(steps)) && {
            &&& steps.len() > 0
            &&& steps.last().typ == TokenType::Eof
            &&& forall|i: int| 0 <= i < steps.len() - 1 ==> (#[trigger] steps[i]).typ != TokenType::Eof
        },
    decreases src.len() - cur,
{
    let st = scan(src, cur, line).unwrap();
    if st.typ != TokenType::Eof {
        lemma_scan_progress(src, cur, line);
        lemma_scan_all_ends(src, st.current, st.next_line);
        let rest = scan_all(src, st.current, st.next_line)->Some_0->Ok_0;
        let steps = seq![st] + rest;
        assert forall|i: int| 0 <= i < steps.len() - 1 implies (#[trigger] steps[i]).typ != TokenType::Eof by {
            if i > 0 {
                assert(steps[i] == rest[i - 1]);
            }
        }
        assert(steps.last() == rest.last());
    }
}

impl<'a> Scanner<'a> {
    /// Whether the scanner returns a next token: it does, but where blanks
    /// lead to a `/` that starts no comment, or a number ends the text with
    /// a `.`.
    pub fn can_scan(&self) -> (r: bool)
        requires
            self.wf(),
        ensures
            r == (scan(self.src(), self.spec_current(), self.spec_line()) is Some),
    {
        let ghost src = self.source@;
        let ghost target = skip_ws(src, self.current as nat, self.line as nat, false);
        let len = self.source.unicode_len();
        let mut cur = self.current;
        let ghost mut line: nat = self.line as nat;
        let mut in_comment = false;
        let mut stop = false;
        while cur < len && !stop
            invariant
                len == src.len(),
                src == self.source@,
                self.current <= cur <= len,
                target == skip_ws(src, cur as nat, line, in_comment),
                target == skip_ws(src, self.current as nat, self.line as nat, false),
                stop ==> cur < len && target == Some((cur as nat, line)),
            decreases len - cur + (if stop { 0int } else { 1int }),
        {
            let c = self.source.get_char(cur);
            if in_comment {
                if c == '\n' {
                    in_comment = false;
                    proof {
                        line = line + 1;
                    }
                }
                cur = cur + 1;
            } else if c == ' ' || c == '\r' || c == '\t' {
                cur = cur + 1;
            } else if c == '\n' {
                cur = cur + 1;
                proof {
                    line = line + 1;
                }
            } else if c == '/' {
                if cur + 1 >= len {
                    assert(target is None);
                    return false;
                }
                if self.source.get_char(cur + 1) != '/' {
                    assert(target is None);
                    return false;
                }
                cur = cur + 2;
                in_comment = true;
            } else {
                stop = true;
            }
        }
        assert(target == Some((cur as nat, line)));
        if cur >= len {
            return true;
        }
        let c = self.source.get_char(cur);
        if !Self::is_digit(c) {
            return true;
        }
        let mut d = cur + 1;
        while d < len && Self::is_digit(self.source.get_char(d))
            invariant
                len == src.len(),
                src == self.source@,
                cur < d <= len,
                digits_end(src, (cur + 1) as nat) == digits_end(src, d as nat),
            decreases len - d,
        {
            d = d + 1;
        }
        !(d < len && self.source.get_char(d) == '.' && d + 1 >= len)
    }

    /// All the tokens from here through the end of the text; the first error
    /// token instead, if there is one; `None` where the scanner would not
    /// return.
    pub fn scan_tokens(&mut self) -> (r: Option<Result<Vec<Token<'a>>, Token<'a>>>)
        requires
            old(self).wf(),
        ensures
            match scan_all(old(self).src(), old(self).spec_current(), old(self).spec_line()) {
                None => r is None,
                Some(Err(st)) => r matches Some(Err(t)) && t.typ == st.typ && t.line == st.line && t.source@ == st.text,
                Some(Ok(steps)) => r matches Some(Ok(v)) && v@.len() == steps.len() && forall|i: int|
                    0 <= i < steps.len() ==> (#[trigger] v@[i]).typ == steps[i].typ && v@[i].line == steps[i].line
                        && v@[i].source@ == steps[i].text,
            },
    {
        let ghost src = self.src();
        let ghost all = scan_all(src, self.spec_current(), self.spec_line());
        let mut v: Vec<Token<'a>> = Vec::new();
        let ghost mut steps: Seq<ScanStep> = Seq::empty();
        loop
            invariant
                self.wf(),
                self.src() == src,
                src == old(self).src(),
                all == scan_all(src, old(self).spec_current(), old(self).spec_line()),
                v@.len() == steps.len(),
                forall|i: int|
                    0 <= i < steps.len() ==> (#[trigger] v@[i]).typ == steps[i].typ && v@[i].line == steps[i].line
                        && v@[i].source@ == steps[i].text,
                all == match scan_all(src, self.spec_current(), self.spec_line()) {
                    Some(Ok(rest)) => Some(Ok(steps + rest)),
                    other => other,
                },
            decreases src.len() - self.spec_current(),
        {
            if !self.can_scan() {
                assert(scan_all(src, self.spec_current(), self.spec_line()) is None);
                return None;
            }
            let ghost c0 = self.spec_current();
            let ghost l0 = self.spec_line();
            proof {
                lemma_scan_progress(src, c0, l0);
            }
            let ghost st = scan(src, c0, l0).unwrap();
            let tok = self.scan_token();
            if tok.typ == TokenType::Eof {
                v.push(tok);
                proof {
                    assert(scan_all(src, c0, l0) == Some(Ok::<Seq<ScanStep>, ScanStep>(seq![st])));
                    let old_steps = steps;
                    steps = steps.push(st);
                    assert(old_steps + seq![st] =~= steps);
                    assert(all == Some(Ok::<Seq<ScanStep>, ScanStep>(steps)));
                    assert forall|i: int| 0 <= i < steps.len() implies (#[trigger] v@[i]).typ == steps[i].typ
                        && v@[i].line == steps[i].line && v@[i].source@ == steps[i].text by {
                        if i < old_steps.len() {
                            assert(v@[i] == v@.drop_last()[i]);
                        }
                    }
                }
                return Some(Ok(v));
            }
            if tok.typ == TokenType::Error {
                assert(scan_all(src, c0, l0) == Some(Err::<Seq<ScanStep>, ScanStep>(st)));
                return Some(Err(tok));
            }
            v.push(tok);
            proof {
                let old_steps = steps;
                steps = steps.push(st);
                match scan_all(src, st.current, st.next_line) {
                    Some(Ok(rest)) => {
                        assert(old_steps + (seq![st] + rest) =~= steps + rest);
                    },
                    _ => {},
                }
            }
        }
    }
}

/// The one text a token of kind `t` is written as, for the kinds that have
/// one: punctuation, operators, keywords, and the empty end of the text.
pub open spec fn spelling(t: TokenType) -> Option<Seq<char>> {
    match t {
        TokenType::LeftParen => Some(seq!['(']),
        TokenType::RightParen => Some(seq![')']),
        TokenType::LeftBrace => Some(seq!['{']),
        TokenType::RightBrace => Some(seq!['}']),
        TokenType::Comma => Some(seq![',']),
        TokenType::Dot => Some(seq!['.']),
        TokenType::Minus => Some(seq!['-']),
        TokenType::Plus => Some(seq!['+']),
        TokenType::SemiColon => Some(seq![';']),
        TokenType::Slash => Some(seq!['/']),
        TokenType::Star => Some(seq!['*']),
        TokenType::Bang => Some(seq!['!']),
        TokenType::BangEqual => Some(seq!['!', '=']),
        TokenType::Equal => Some(seq!['=']),
        TokenType::EqualEqual => Some(seq!['=', '=']),
        TokenType::Greater => Some(seq!['>']),
        TokenType::GreaterEqual => Some(seq!['>', '=']),
        TokenType::Less => Some(seq!['<']),
        TokenType::LessEqual => Some(seq!['<', '=']),
        TokenType::And => Some(seq!['a', 'n', 'd']),
        TokenType::Class => Some(seq!['c', 'l', 'a', 's', 's']),
        TokenType::Else => Some(seq!['e', 'l', 's', 'e']),
        TokenType::False => Some(seq!['f', 'a', 'l', 's', 'e']),
        TokenType::For => Some(seq!['f', 'o', 'r']),
        TokenType::Fun => Some(seq!['f', 'u', 'n']),
        TokenType::If => Some(seq!['i', 'f']),
        TokenType::Nil => Some(seq!['n', 'i', 'l']),
        TokenType::Or => Some(seq!['o', 'r']),
        TokenType::Print => Some(seq!['p', 'r', 'i', 'n', 't']),
        TokenType::Return => Some(seq!['r', 'e', 't', 'u', 'r', 'n']),
        TokenType::Super => Some(seq!['s', 'u', 'p', 'e', 'r']),
        TokenType::This => Some(seq!['t', 'h', 'i', 's']),
        TokenType::True => Some(seq!['t', 'r', 'u', 'e']),
        TokenType::Var => Some(seq!['v', 'a', 'r']),
        TokenType::While => Some(seq!['w', 'h', 'i', 'l', 'e']),
        TokenType::Eof => Some(Seq::empty()),
        _ => None,
    }
}

/// A token's kind fits its text: a token of a kind that is written one way
/// has that text, so that `>=` is read as `GreaterEqual` and never as
/// `Greater` (whose text is `>`), `and` as `And`, and so on; and a token
/// read from the source (all but an error) is the text it covers.
pub proof fn lemma_scan_spelling(src: Seq<char>, cur: nat, line: nat)
    requires
        cur <= src.len(),
    ensures
        scan(src, cur, line) matches Some(st) ==> {
            &&& spelling(st.typ) matches Some(sp) ==> st.text == sp
            &&& st.typ != TokenType::Error ==> st.text == src.subrange(st.start as int, st.current as int)
        },
{
    match scan(src, cur, line) {
        Some(st) => {
            lemma_scan_progress(src, cur, line);
            lemma_skip_ws_bounds(src, cur, line, false);
            let (sk, l) = skip_ws(src, cur, line, false).unwrap();
            if sk < src.len() {
                let c = src[sk as int];
                let n = sk + 1;
                if !spec_is_digit(c) && !spec_is_alpha(c) {
                    if single_char_type(c) is Some {
                        assert(st.text =~= seq![c]);
                    } else if operator_types(c) is Some {
                        if n < src.len() && src[n as int] == '=' {
                            assert(st.text =~= seq![c, '=']);
                        } else {
                            assert(st.text =~= seq![c]);
                        }
                    }
                }
            } else {
                assert(st.text =~= Seq::<char>::empty());
            }
        },
        None => {},
    }
}

/// Every token of a scanned text fits its text (see `lemma_scan_spelling`).
pub proof fn lemma_scan_all_spelling(src: Seq<char>, cur: nat, line: nat)
    requires
        cur <= src.len(),
    ensures
        scan_all(src, cur, line) matches Some(Ok(ts)) ==> forall|i: int|
            0 <= i < ts.len() ==> (spelling(#[trigger] ts[i].typ) matches Some(sp) ==> ts[i].text == sp),
    decreases src.len() - cur,
{
    match scan(src, cur, line) {
        Some(st) => {
            lemma_scan_spelling(src, cur, line);
            if st.typ != TokenType::Eof && st.typ != TokenType::Error {
                lemma_scan_progress(src, cur, line);
                lemma_scan_all_spelling(src, st.current, st.next_line);
                match scan_all(src, st.current, st.next_line) {
                    Some(Ok(rest)) => {
                        let ts = seq![st] + rest;
                        assert forall|i: int| 0 <= i < ts.len() implies (spelling(#[trigger] ts[i].typ) matches Some(sp)
                            ==> ts[i].text == sp) by {
                            if i > 0 {
                                assert(ts[i] == rest[i - 1]);
                            }
                        }
                    },
                    _ => {},
                }
            }
        },
        None => {},
    }
}

} // verus!
