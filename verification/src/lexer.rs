use vstd::prelude::*;
use vstd::string::StrSliceExecFns;

use crate::token::{Token, TokenType};

verus! {

/// Whitespace as the scanner understands it: ASCII space, tab, newline and
/// carriage return.
pub open spec fn is_whitespace_char(c: char) -> bool {
    c == ' ' || c == '\t' || c == '\n' || c == '\r'
}

/// An ASCII alphabetic character, the character class of identifiers.
pub open spec fn is_letter_char(c: char) -> bool {
    ('a' <= c && c <= 'z') || ('A' <= c && c <= 'Z')
}

/// An ASCII decimal digit, the character class of integer literals.
pub open spec fn is_digit_char(c: char) -> bool {
    '0' <= c && c <= '9'
}

/// The token kind of a character from the fixed single-character
/// punctuation/operator set, or `None` for any other character.
pub open spec fn punct_token_type(c: char) -> Option<TokenType> {
    if c == '=' {
        Some(TokenType::Assign)
    } else if c == '+' {
        Some(TokenType::Plus)
    } else if c == '-' {
        Some(TokenType::Minus)
    } else if c == '(' {
        Some(TokenType::Lparen)
    } else if c == ')' {
        Some(TokenType::Rparen)
    } else if c == '{' {
        Some(TokenType::Lbrace)
    } else if c == '}' {
        Some(TokenType::Rbrace)
    } else if c == ',' {
        Some(TokenType::Comma)
    } else if c == ';' {
        Some(TokenType::Semicolon)
    } else {
        None
    }
}

/// The cursor position reached from `i` after skipping the maximal run of
/// whitespace characters.
pub open spec fn whitespace_end(s: Seq<char>, i: int) -> int
    decreases s.len() - i,
{
    if 0 <= i < s.len() && is_whitespace_char(s[i]) {
        whitespace_end(s, i + 1)
    } else {
        i
    }
}

/// The cursor position reached from `i` after consuming the maximal run of
/// ASCII alphabetic characters.
pub open spec fn identifier_end(s: Seq<char>, i: int) -> int
    decreases s.len() - i,
{
    if 0 <= i < s.len() && is_letter_char(s[i]) {
        identifier_end(s, i + 1)
    } else {
        i
    }
}

/// The cursor position reached from `i` after consuming the maximal run of
/// ASCII digits.
pub open spec fn number_end(s: Seq<char>, i: int) -> int
    decreases s.len() - i,
{
    if 0 <= i < s.len() && is_digit_char(s[i]) {
        number_end(s, i + 1)
    } else {
        i
    }
}

/// A whitespace skip stays within bounds, skips only whitespace, and stops
/// at the end of input or at the first non-whitespace character.
pub proof fn lemma_whitespace_end(s: Seq<char>, i: int)
    requires
        0 <= i <= s.len(),
    ensures
        i <= whitespace_end(s, i) <= s.len(),
        forall|k: int| i <= k < whitespace_end(s, i) ==> is_whitespace_char(s[k]),
        whitespace_end(s, i) < s.len() ==> !is_whitespace_char(s[whitespace_end(s, i)]),
    decreases s.len() - i,
{
    if i < s.len() && is_whitespace_char(s[i]) {
        lemma_whitespace_end(s, i + 1);
    }
}

/// An identifier scan stays within bounds, consumes only alphabetic
/// characters, and stops at the end of input or at the first non-alphabetic
/// character.
pub proof fn lemma_identifier_end(s: Seq<char>, i: int)
    requires
        0 <= i <= s.len(),
    ensures
        i <= identifier_end(s, i) <= s.len(),
        forall|k: int| i <= k < identifier_end(s, i) ==> is_letter_char(s[k]),
        identifier_end(s, i) < s.len() ==> !is_letter_char(s[identifier_end(s, i)]),
    decreases s.len() - i,
{
    if i < s.len() && is_letter_char(s[i]) {
        lemma_identifier_end(s, i + 1);
    }
}

/// An integer scan stays within bounds, consumes only digits, and stops at
/// the end of input or at the first non-digit character.
pub proof fn lemma_number_end(s: Seq<char>, i: int)
    requires
        0 <= i <= s.len(),
    ensures
        i <= number_end(s, i) <= s.len(),
        forall|k: int| i <= k < number_end(s, i) ==> is_digit_char(s[k]),
        number_end(s, i) < s.len() ==> !is_digit_char(s[number_end(s, i)]),
    decreases s.len() - i,
{
    if i < s.len() && is_digit_char(s[i]) {
        lemma_number_end(s, i + 1);
    }
}

/// Tests whether the scanned identifier text is one of the two keywords and,
/// if so, gives its keyword token kind.
pub open spec fn keyword_token_type(text: Seq<char>) -> Option<TokenType> {
    if text == seq!['l', 'e', 't'] {
        Some(TokenType::Let)
    } else if text == seq!['f', 'n'] {
        Some(TokenType::Function)
    } else {
        None
    }
}

/// The token that one scan step over `s` starting at cursor `i` produces:
/// its kind, its text, and the cursor position left behind. A step first
/// skips the maximal run of whitespace, then classifies the next character:
/// fixed punctuation consumes that one character, an alphabetic character
/// opens a maximal alphabetic run that is a keyword or an identifier, a digit
/// opens a maximal digit run, any other character is consumed as an invalid
/// token with empty text, and an exhausted input yields the end-of-input
/// token with empty text.
pub open spec fn scan_at(s: Seq<char>, i: int) -> (TokenType, Seq<char>, int) {
    let j = whitespace_end(s, i);
    if j >= s.len() {
        (TokenType::Eof, Seq::<char>::empty(), j)
    } else if punct_token_type(s[j]) is Some {
        (punct_token_type(s[j])->Some_0, s.subrange(j, j + 1), j + 1)
    } else if is_letter_char(s[j]) {
        let text = s.subrange(j, identifier_end(s, j));
        let kind = match keyword_token_type(text) {
            Some(k) => k,
            None => TokenType::Ident,
        };
        (kind, text, identifier_end(s, j))
    } else if is_digit_char(s[j]) {
        (TokenType::Int, s.subrange(j, number_end(s, j)), number_end(s, j))
    } else {
        (TokenType::Invalid, Seq::<char>::empty(), j + 1)
    }
}

/// The sequence of the first `n` tokens that a scan of `s` starting at
/// cursor `i` produces, each as its kind and text.
pub open spec fn scan_tokens(s: Seq<char>, i: int, n: nat) -> Seq<(TokenType, Seq<char>)>
    decreases n,
{
    if n == 0 {
        Seq::<(TokenType, Seq<char>)>::empty()
    } else {
        seq![(scan_at(s, i).0, scan_at(s, i).1)] + scan_tokens(s, scan_at(s, i).2, (n - 1) as nat)
    }
}

/// Determinism: the tokens a scan produces are a function of the input text
/// and the starting cursor alone, so two independent scans of the same input
/// produce identical, order-preserving token sequences.
pub proof fn lemma_scan_deterministic(s1: Seq<char>, s2: Seq<char>, n: nat)
    requires
        s1 == s2,
    ensures
        scan_tokens(s1, 0, n) == scan_tokens(s2, 0, n),
{
}

/// Idempotent termination: once a scan step yields the end-of-input token,
/// the step from the cursor it leaves behind yields the end-of-input token
/// again, with empty text and an unchanged cursor.
pub proof fn lemma_eof_stable(s: Seq<char>, i: int)
    requires
        0 <= i <= s.len(),
        scan_at(s, i).0 == TokenType::Eof,
    ensures
        scan_at(s, scan_at(s, i).2) == scan_at(s, i),
        scan_at(s, i).1 == Seq::<char>::empty(),
        scan_at(s, i).2 == s.len(),
{
    lemma_whitespace_end(s, i);
}

/// Progress: a scan step never moves the cursor backwards or past the end of
/// the input, and every step that does not yield the end-of-input token
/// consumes at least one character — so a caller that scans until
/// end-of-input never loops forever, whatever the input holds.
pub proof fn lemma_scan_progress(s: Seq<char>, i: int)
    requires
        0 <= i <= s.len(),
    ensures
        i <= scan_at(s, i).2 <= s.len(),
        scan_at(s, i).0 != TokenType::Eof ==> i < scan_at(s, i).2,
{
    lemma_whitespace_end(s, i);
    let j = whitespace_end(s, i);
    if j < s.len() {
        if is_letter_char(s[j]) {
            lemma_identifier_end(s, j);
            lemma_identifier_end(s, j + 1);
        }
        if is_digit_char(s[j]) {
            lemma_number_end(s, j);
            lemma_number_end(s, j + 1);
        }
    }
}

/// Maximal munch for identifiers: when the first character after the
/// whitespace skip is alphabetic, the scan yields a single token covering
/// the whole alphabetic run — it is nonempty, holds alphabetic characters
/// only, and stops only at the end of input or at the first non-alphabetic
/// character. The token is classified as a keyword or a generic identifier.
pub proof fn lemma_identifier_maximal_munch(s: Seq<char>, i: int)
    requires
        0 <= i <= s.len(),
        whitespace_end(s, i) < s.len(),
        is_letter_char(s[whitespace_end(s, i)]),
    ensures
        ({
            let j = whitespace_end(s, i);
            let (kind, text, end) = scan_at(s, i);
            &&& end == identifier_end(s, j)
            &&& j < end <= s.len()
            &&& text == s.subrange(j, end)
            &&& forall|k: int| j <= k < end ==> is_letter_char(s[k])
            &&& (end < s.len() ==> !is_letter_char(s[end]))
            &&& (kind == TokenType::Ident || kind == TokenType::Let || kind
                == TokenType::Function)
        }),
{
    lemma_whitespace_end(s, i);
    let j = whitespace_end(s, i);
    lemma_identifier_end(s, j);
    lemma_identifier_end(s, j + 1);
}

/// Maximal munch for integers: when the first character after the whitespace
/// skip is a digit, the scan yields a single integer token covering the
/// whole digit run — it is nonempty, holds digits only, and stops only at
/// the end of input or at the first non-digit character.
pub proof fn lemma_number_maximal_munch(s: Seq<char>, i: int)
    requires
        0 <= i <= s.len(),
        whitespace_end(s, i) < s.len(),
        is_digit_char(s[whitespace_end(s, i)]),
    ensures
        ({
            let j = whitespace_end(s, i);
            let (kind, text, end) = scan_at(s, i);
            &&& end == number_end(s, j)
            &&& j < end <= s.len()
            &&& text == s.subrange(j, end)
            &&& forall|k: int| j <= k < end ==> is_digit_char(s[k])
            &&& (end < s.len() ==> !is_digit_char(s[end]))
            &&& kind == TokenType::Int
        }),
{
    lemma_whitespace_end(s, i);
    let j = whitespace_end(s, i);
    lemma_number_end(s, j);
    lemma_number_end(s, j + 1);
}

/// Keyword precedence is exact: an identifier's text is classified as a
/// keyword if and only if it is exactly `let` or exactly `fn`. A text that
/// merely starts with a keyword is not a keyword.
pub proof fn lemma_keyword_exact(text: Seq<char>)
    ensures
        keyword_token_type(text) == Some(TokenType::Let) <==> text == seq!['l', 'e', 't'],
        keyword_token_type(text) == Some(TokenType::Function) <==> text == seq!['f', 'n'],
        text != seq!['l', 'e', 't'] && text != seq!['f', 'n'] ==> keyword_token_type(text)
            is None,
{
}

/// Every token's text satisfies the classification rule that produced it:
/// empty for end-of-input and invalid tokens, the single punctuation
/// character for a punctuation token, a nonempty all-alphabetic run for
/// identifiers and keywords, and a nonempty all-digit run for integers.
pub proof fn lemma_token_text_classified(s: Seq<char>, i: int)
    requires
        0 <= i <= s.len(),
    ensures
        ({
            let (kind, text, end) = scan_at(s, i);
            &&& (kind == TokenType::Eof || kind == TokenType::Invalid) ==> text
                == Seq::<char>::empty()
            &&& punct_token_type(s[whitespace_end(s, i)]) == Some(kind) ==> text.len() == 1
                && punct_token_type(text[0]) == Some(kind)
            &&& (kind == TokenType::Ident || kind == TokenType::Let || kind
                == TokenType::Function) ==> text.len() > 0 && (forall|k: int|
                0 <= k < text.len() ==> is_letter_char(text[k]))
            &&& kind == TokenType::Int ==> text.len() > 0 && (forall|k: int|
                0 <= k < text.len() ==> is_digit_char(text[k]))
        }),
{
    lemma_whitespace_end(s, i);
    let j = whitespace_end(s, i);
    if j < s.len() {
        if punct_token_type(s[j]) is Some {
        } else if is_letter_char(s[j]) {
            lemma_identifier_maximal_munch(s, i);
        } else if is_digit_char(s[j]) {
            lemma_number_maximal_munch(s, i);
        }
    }
}

/// The scanner: a cursor over an immutable input text, advanced monotonically
/// by each token request. The cursor counts characters, not bytes.
#[derive(Debug)]
pub struct Lexer<'a> {
    pub input: &'a str,
    pub pos: usize,
}

impl<'a> Lexer<'a> {
    /// The scanner's invariant: the cursor never passes the end of the input.
    pub open spec fn wf(self) -> bool {
        self.pos as int <= self.input@.len()
    }

    /// Initializes a new lexer with the given input.
    pub fn new(input: &'a str) -> (r: Self)
        ensures
            r.wf(),
            r.input@ == input@,
            r.pos == 0,
    {
        Lexer { input, pos: 0 }
    }

    /// Advances the cursor by one character, unless the input is exhausted.
    pub fn advance(&mut self)
        requires
            old(self).wf(),
        ensures
            final(self).wf(),
            final(self).input@ == old(self).input@,
            final(self).pos as int == if (old(self).pos as int) < old(self).input@.len() {
                old(self).pos as int + 1
            } else {
                old(self).pos as int
            },
    {
        if self.pos < self.input.unicode_len() {
            self.pos = self.pos + 1;
        }
    }

    /// Consumes the maximal run of leading whitespace (space, tab, newline,
    /// carriage return), leaving the cursor on the first character that is
    /// not whitespace, or at the end of the input.
    pub fn skip_whitespace(&mut self)
        requires
            old(self).wf(),
        ensures
            final(self).wf(),
            final(self).input@ == old(self).input@,
            final(self).pos as int == whitespace_end(old(self).input@, old(self).pos as int),
    {
        let ghost s = self.input@;
        let ghost p0 = self.pos as int;
        let len: usize = self.input.unicode_len();
        while self.pos < len && is_whitespace(self.input.get_char(self.pos))
            invariant
                self.input@ == s,
                p0 <= self.pos as int <= s.len(),
                len as int == s.len(),
                whitespace_end(s, self.pos as int) == whitespace_end(s, p0),
            decreases len - self.pos,
        {
            self.pos = self.pos + 1;
        }
    }

    /// Consumes the maximal run of ASCII alphabetic characters at the cursor
    /// and returns it as the scanned identifier text.
    pub fn parse_identifier(&mut self) -> (r: String)
        requires
            old(self).wf(),
        ensures
            final(self).wf(),
            final(self).input@ == old(self).input@,
            final(self).pos as int == identifier_end(old(self).input@, old(self).pos as int),
            old(self).pos <= final(self).pos,
            r@ == old(self).input@.subrange(old(self).pos as int, final(self).pos as int),
    {
        let ghost s = self.input@;
        let ghost p0 = self.pos as int;
        let start: usize = self.pos;
        let len: usize = self.input.unicode_len();
        while self.pos < len && is_letter(self.input.get_char(self.pos))
            invariant
                self.input@ == s,
                start as int == p0,
                p0 <= self.pos as int <= s.len(),
                len as int == s.len(),
                identifier_end(s, self.pos as int) == identifier_end(s, p0),
            decreases len - self.pos,
        {
            self.pos = self.pos + 1;
        }
        self.input.substring_char(start, self.pos).to_owned()
    }

    /// Consumes the maximal run of ASCII digits at the cursor and returns it
    /// as the scanned integer-literal text; no numeric conversion is done.
    pub fn parse_number(&mut self) -> (r: String)
        requires
            old(self).wf(),
        ensures
            final(self).wf(),
            final(self).input@ == old(self).input@,
            final(self).pos as int == number_end(old(self).input@, old(self).pos as int),
            old(self).pos <= final(self).pos,
            r@ == old(self).input@.subrange(old(self).pos as int, final(self).pos as int),
    {
        let ghost s = self.input@;
        let ghost p0 = self.pos as int;
        let start: usize = self.pos;
        let len: usize = self.input.unicode_len();
        while self.pos < len && is_digit(self.input.get_char(self.pos))
            invariant
                self.input@ == s,
                start as int == p0,
                p0 <= self.pos as int <= s.len(),
                len as int == s.len(),
                number_end(s, self.pos as int) == number_end(s, p0),
            decreases len - self.pos,
        {
            self.pos = self.pos + 1;
        }
        self.input.substring_char(start, self.pos).to_owned()
    }

    /// Checks whether an identifier's text is a keyword, case-sensitively and
    /// by exact match. Returns the corresponding keyword token kind if so.
    pub fn lookup_identifier(ident: &str) -> (r: Option<TokenType>)
        ensures
            r == keyword_token_type(ident@),
    {
        let len: usize = ident.unicode_len();
        if len == 3 && ident.get_char(0) == 'l' && ident.get_char(1) == 'e' && ident.get_char(2)
            == 't' {
            proof {
                assert(ident@ =~= seq!['l', 'e', 't']);
            }
            Some(TokenType::Let)
        } else if len == 2 && ident.get_char(0) == 'f' && ident.get_char(1) == 'n' {
            proof {
                assert(ident@ =~= seq!['f', 'n']);
            }
            Some(TokenType::Function)
        } else {
            None
        }
    }

    /// Consumes the single character at the cursor and returns it as a
    /// one-character string.
    fn consume_char(&mut self) -> (r: String)
        requires
            old(self).wf(),
            (old(self).pos as int) < old(self).input@.len(),
        ensures
            final(self).wf(),
            final(self).input@ == old(self).input@,
            final(self).pos as int == old(self).pos as int + 1,
            r@ == old(self).input@.subrange(old(self).pos as int, old(self).pos as int + 1),
    {
        let start: usize = self.pos;
        self.advance();
        self.input.substring_char(start, self.pos).to_owned()
    }

    /// Produces the next token. Whitespace before the token is skipped; an
    /// unrecognized character is consumed and reported as an invalid token
    /// with empty text; an exhausted input yields the end-of-input token, and
    /// keeps yielding it on every further call. The scanner never fails: the
    /// result is always a token.
    pub fn next_token(&mut self) -> (r: Option<Token>)
        requires
            old(self).wf(),
        ensures
            final(self).wf(),
            final(self).input@ == old(self).input@,
            r matches Some(t) && ({
                let (kind, text, end) = scan_at(old(self).input@, old(self).pos as int);
                &&& t.token_type == kind
                &&& t.token_literal@ == text
                &&& final(self).pos as int == end
            }),
    {
        self.skip_whitespace();
        if self.pos >= self.input.unicode_len() {
            return Some(
                Token { token_type: TokenType::Eof, token_literal: String::new() },
            );
        }
        let c = self.input.get_char(self.pos);
        if c == '=' {
            let lit = self.consume_char();
            Some(Token { token_type: TokenType::Assign, token_literal: lit })
        } else if c == '+' {
            let lit = self.consume_char();
            Some(Token { token_type: TokenType::Plus, token_literal: lit })
        } else if c == '-' {
            let lit = self.consume_char();
            Some(Token { token_type: TokenType::Minus, token_literal: lit })
        } else if c == '(' {
            let lit = self.consume_char();
            Some(Token { token_type: TokenType::Lparen, token_literal: lit })
        } else if c == ')' {
            let lit = self.consume_char();
            Some(Token { token_type: TokenType::Rparen, token_literal: lit })
        } else if c == '{' {
            let lit = self.consume_char();
            Some(Token { token_type: TokenType::Lbrace, token_literal: lit })
        } else if c == '}' {
            let lit = self.consume_char();
            Some(Token { token_type: TokenType::Rbrace, token_literal: lit })
        } else if c == ',' {
            let lit = self.consume_char();
            Some(Token { token_type: TokenType::Comma, token_literal: lit })
        } else if c == ';' {
            let lit = self.consume_char();
            Some(Token { token_type: TokenType::Semicolon, token_literal: lit })
        } else if is_letter(c) {
            let ident = self.parse_identifier();
            let tok_type = match Self::lookup_identifier(ident.as_str()) {
                Some(t) => t,
                None => TokenType::Ident,
            };
            Some(Token { token_type: tok_type, token_literal: ident })
        } else if is_digit(c) {
            let number = self.parse_number();
            Some(Token { token_type: TokenType::Int, token_literal: number })
        } else {
            self.advance();
            Some(Token { token_type: TokenType::Invalid, token_literal: String::new() })
        }
    }
}

/// Executable test for the whitespace character class.
fn is_whitespace(c: char) -> (r: bool)
    ensures
        r == is_whitespace_char(c),
{
    c == ' ' || c == '\t' || c == '\n' || c == '\r'
}

/// Executable test for the identifier character class.
fn is_letter(c: char) -> (r: bool)
    ensures
        r == is_letter_char(c),
{
    ('a' <= c && c <= 'z') || ('A' <= c && c <= 'Z')
}

/// Executable test for the digit character class.
fn is_digit(c: char) -> (r: bool)
    ensures
        r == is_digit_char(c),
{
    '0' <= c && c <= '9'
}

}
