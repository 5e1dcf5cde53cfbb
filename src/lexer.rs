//! The lexer: a cursor over a character sequence producing one token per call.
use vstd::prelude::*;

use crate::chars::{alnum, is_alnum, is_letter, is_numeric, is_space, letter, numeric, space};
use crate::token::Token;

verus! {

/// Index of the first character at or after `i` that is not whitespace
/// (or the length of `s`).
pub open spec fn skip_space(s: Seq<char>, i: int) -> int
    decreases s.len() - i,
{
    if 0 <= i < s.len() && is_space(s[i]) {
        skip_space(s, i + 1)
    } else {
        i
    }
}

/// End of the run of letters and digits starting at `i`.
pub open spec fn scan_alnum(s: Seq<char>, i: int) -> int
    decreases s.len() - i,
{
    if 0 <= i < s.len() && is_alnum(s[i]) {
        scan_alnum(s, i + 1)
    } else {
        i
    }
}

/// End of the run of numeric characters and dots starting at `i`.
pub open spec fn scan_number(s: Seq<char>, i: int) -> int
    decreases s.len() - i,
{
    if 0 <= i < s.len() && (is_numeric(s[i]) || s[i] == '.') {
        scan_number(s, i + 1)
    } else {
        i
    }
}

/// End of a comment body starting at `i`: just past the first line
/// terminator, or the end of the input.
pub open spec fn scan_comment(s: Seq<char>, i: int) -> int
    decreases s.len() - i,
{
    if 0 <= i < s.len() {
        if s[i] == '\n' || s[i] == '\r' {
            i + 1
        } else {
            scan_comment(s, i + 1)
        }
    } else {
        i
    }
}

/// Characters that form a two-character token when followed by `=`.
pub open spec fn pairs_with_eq(c: char) -> bool {
    c == '=' || c == '!' || c == '<' || c == '>'
}

/// Where the token that starts at `st` (a non-whitespace character) ends.
pub open spec fn token_end(s: Seq<char>, st: int) -> int {
    let c = s[st];
    if is_letter(c) {
        scan_alnum(s, st + 1)
    } else if is_numeric(c) {
        scan_number(s, st + 1)
    } else if c == '#' {
        scan_comment(s, st + 1)
    } else if pairs_with_eq(c) && st + 1 < s.len() && s[st + 1] == '=' {
        st + 2
    } else {
        st + 1
    }
}

/// The keyword spelled by `w`, if any.
pub open spec fn keyword(w: Seq<char>) -> Option<Token> {
    if w == seq!['t', 'r', 'u', 'e'] {
        Some(Token::True)
    } else if w == seq!['f', 'a', 'l', 's', 'e'] {
        Some(Token::False)
    } else if w == seq!['i', 'f'] {
        Some(Token::If)
    } else if w == seq!['f', 'o', 'r'] {
        Some(Token::For)
    } else if w == seq!['p', 'r', 'i', 'n', 't'] {
        Some(Token::Print)
    } else {
        None
    }
}

/// The fixed table of single-character punctuation.
pub open spec fn punct_of(c: char) -> Token {
    if c == ':' {
        Token::Colon
    } else if c == ';' {
        Token::Semicolon
    } else if c == '(' {
        Token::OpenParen
    } else if c == ')' {
        Token::CloseParen
    } else if c == '[' {
        Token::OpenBracket
    } else if c == ']' {
        Token::CloseBracket
    } else if c == '{' {
        Token::OpenBrace
    } else if c == '}' {
        Token::CloseBrace
    } else if c == '.' {
        Token::Dot
    } else if c == ',' {
        Token::Comma
    } else if c == '+' {
        Token::Plus
    } else if c == '-' {
        Token::Minus
    } else if c == '*' {
        Token::Times
    } else if c == '/' {
        Token::Divide
    } else if c == '=' {
        Token::Assignment
    } else if c == '!' {
        Token::Not
    } else if c == '<' {
        Token::LessThan
    } else if c == '>' {
        Token::GreaterThan
    } else {
        Token::Unknown
    }
}

/// The two-character tokens, written as their first character followed by `=`.
pub open spec fn pair_of(c: char) -> Token {
    if c == '=' {
        Token::Equals
    } else if c == '!' {
        Token::NotEquals
    } else if c == '<' {
        Token::LessEqual
    } else {
        Token::GreaterEqual
    }
}

/// A character that has an entry of its own in the punctuation table.
pub open spec fn is_punct(c: char) -> bool {
    punct_of(c) != Token::Unknown
}

/// Number text is valid when it consists of ASCII digits and dots with at
/// most one dot.
pub open spec fn valid_number(w: Seq<char>) -> bool {
    &&& forall|i: int| 0 <= i < w.len() ==> (crate::chars::is_ascii_digit(#[trigger] w[i]) || w[i] == '.')
    &&& forall|i: int, j: int|
        #![trigger w[i], w[j]]
        0 <= i < j < w.len() && w[i] == '.' ==> w[j] != '.'
}

/// The lexeme `w` (a whole token's text, as `token_end` delimits it) is a
/// number literal that cannot be read as a decimal value.
pub open spec fn lexeme_error(w: Seq<char>) -> bool {
    !is_letter(w[0]) && is_numeric(w[0]) && !valid_number(w)
}

/// `t` is the token that the lexeme `w` stands for.
pub open spec fn lexeme_token(w: Seq<char>, t: Token) -> bool {
    let c = w[0];
    if is_letter(c) {
        match keyword(w) {
            Some(k) => t == k,
            None => match t {
                Token::Identifier(name) => name@ == w,
                _ => false,
            },
        }
    } else if is_numeric(c) {
        match t {
            Token::Number(text) => text@ == w,
            _ => false,
        }
    } else if c == '#' {
        t == Token::Comment
    } else if w.len() == 2 {
        t == pair_of(c)
    } else {
        t == punct_of(c)
    }
}

/// `v` is the token sequence read from position `i` on: one token per
/// lexeme, comments left out, ending with the end-of-input token.
pub open spec fn lexes_from(s: Seq<char>, i: int, v: Seq<Token>) -> bool
    decreases s.len() - i,
{
    let st = skip_space(s, i);
    if st >= s.len() {
        v == seq![Token::EOF]
    } else {
        let e = token_end(s, st);
        let w = s.subrange(st, e);
        if e <= i || e > s.len() || lexeme_error(w) {
            false
        } else if lexeme_token(w, Token::Comment) {
            lexes_from(s, e, v)
        } else {
            v.len() > 0 && lexeme_token(w, v[0]) && lexes_from(s, e, v.drop_first())
        }
    }
}

/// A token sequence as the parser takes it: no comments, and exactly one
/// end-of-input token, at the end.
pub open spec fn parser_ready(v: Seq<Token>) -> bool {
    &&& v.len() > 0
    &&& v.last() == Token::EOF
    &&& forall|k: int| 0 <= k < v.len() ==> #[trigger] v[k] != Token::Comment
    &&& forall|k: int| 0 <= k < v.len() - 1 ==> #[trigger] v[k] != Token::EOF
}

/// Some lexeme from position `i` on is a malformed number literal.
pub open spec fn lex_error_from(s: Seq<char>, i: int) -> bool
    decreases s.len() - i,
{
    let st = skip_space(s, i);
    if st >= s.len() {
        false
    } else {
        let e = token_end(s, st);
        if e <= i || e > s.len() {
            false
        } else {
            lexeme_error(s.subrange(st, e)) || lex_error_from(s, e)
        }
    }
}

/// The one error the lexer reports: a number literal that does not read as
/// a decimal value.
#[derive(Clone, Copy, Debug, PartialEq, Eq)]
pub enum LexError {
    InvalidNumber,
}

/// Relies on `String::push`: appends `c` to the end of `s`.
#[verifier::external_body]
fn push_char(s: &mut String, c: char)
    ensures
        final(s)@ == old(s)@.push(c),
{
    s.push(c)
}

fn skip_spaces(input: &Vec<char>, i: usize) -> (r: usize)
    requires
        i <= input@.len(),
    ensures
        r == skip_space(input@, i as int),
        i <= r <= input@.len(),
{
    let mut k: usize = i;
    while k < input.len() && space(input[k])
        invariant
            i <= k <= input@.len(),
            skip_space(input@, k as int) == skip_space(input@, i as int),
        decreases input@.len() - k,
    {
        k = k + 1;
    }
    k
}

fn scan_alnum_from(input: &Vec<char>, i: usize) -> (r: usize)
    requires
        i <= input@.len(),
    ensures
        r == scan_alnum(input@, i as int),
        i <= r <= input@.len(),
{
    let mut k: usize = i;
    while k < input.len() && alnum(input[k])
        invariant
            i <= k <= input@.len(),
            scan_alnum(input@, k as int) == scan_alnum(input@, i as int),
        decreases input@.len() - k,
    {
        k = k + 1;
    }
    k
}

fn scan_number_from(input: &Vec<char>, i: usize) -> (r: usize)
    requires
        i <= input@.len(),
    ensures
        r == scan_number(input@, i as int),
        i <= r <= input@.len(),
{
    let mut k: usize = i;
    while k < input.len() && (numeric(input[k]) || input[k] == '.')
        invariant
            i <= k <= input@.len(),
            scan_number(input@, k as int) == scan_number(input@, i as int),
        decreases input@.len() - k,
    {
        k = k + 1;
    }
    k
}

fn scan_comment_from(input: &Vec<char>, i: usize) -> (r: usize)
    requires
        i <= input@.len(),
    ensures
        r == scan_comment(input@, i as int),
        i <= r <= input@.len(),
{
    let mut k: usize = i;
    while k < input.len()
        invariant
            i <= k <= input@.len(),
            scan_comment(input@, k as int) == scan_comment(input@, i as int),
        decreases input@.len() - k,
    {
        if input[k] == '\n' || input[k] == '\r' {
            return k + 1;
        }
        k = k + 1;
    }
    k
}

/// Whether the characters `input[st..end]` spell `word`.
fn spells(input: &Vec<char>, st: usize, end: usize, word: Vec<char>) -> (r: bool)
    requires
        st <= end <= input@.len(),
    ensures
        r == (input@.subrange(st as int, end as int) == word@),
{
    let ghost w = input@.subrange(st as int, end as int);
    if end - st != word.len() {
        return false;
    }
    let mut k: usize = 0;
    while k < word.len()
        invariant
            end - st == word@.len(),
            st <= end <= input@.len(),
            w == input@.subrange(st as int, end as int),
            0 <= k <= word@.len(),
            forall|j: int| 0 <= j < k ==> w[j] == word@[j],
        decreases word@.len() - k,
    {
        if input[st + k] != word[k] {
            assert(w[k as int] != word@[k as int]);
            return false;
        }
        k = k + 1;
    }
    assert(w =~= word@);
    true
}

/// A `String` holding `input[st..end]`.
fn text_of(input: &Vec<char>, st: usize, end: usize) -> (r: String)
    requires
        st <= end <= input@.len(),
    ensures
        r@ == input@.subrange(st as int, end as int),
{
    let mut text = String::new();
    let mut k: usize = st;
    while k < end
        invariant
            st <= k <= end <= input@.len(),
            text@ == input@.subrange(st as int, k as int),
        decreases end - k,
    {
        push_char(&mut text, input[k]);
        assert(input@.subrange(st as int, k + 1) =~= input@.subrange(st as int, k as int).push(input@[k as int]));
        k = k + 1;
    }
    text
}

/// The keyword or identifier spelled by `input[st..end]`.
fn word_token(input: &Vec<char>, st: usize, end: usize) -> (r: Token)
    requires
        st < end <= input@.len(),
    ensures
        ({
            let w = input@.subrange(st as int, end as int);
            match keyword(w) {
                Some(k) => r == k,
                None => match r {
                    Token::Identifier(name) => name@ == w,
                    _ => false,
                },
            }
        }),
{
    if spells(input, st, end, vec!['t', 'r', 'u', 'e']) {
        Token::True
    } else if spells(input, st, end, vec!['f', 'a', 'l', 's', 'e']) {
        Token::False
    } else if spells(input, st, end, vec!['i', 'f']) {
        Token::If
    } else if spells(input, st, end, vec!['f', 'o', 'r']) {
        Token::For
    } else if spells(input, st, end, vec!['p', 'r', 'i', 'n', 't']) {
        Token::Print
    } else {
        Token::Identifier(text_of(input, st, end))
    }
}

/// The number token for `input[st..end]`, or an error when that text is
/// not a valid literal.
fn number_token(input: &Vec<char>, st: usize, end: usize) -> (r: Result<Token, LexError>)
    requires
        st < end <= input@.len(),
    ensures
        ({
            let w = input@.subrange(st as int, end as int);
            match r {
                Ok(t) => valid_number(w) && match t {
                    Token::Number(text) => text@ == w,
                    _ => false,
                },
                Err(e) => !valid_number(w) && e == LexError::InvalidNumber,
            }
        }),
{
    let ghost s = input@;
    let ghost w = input@.subrange(st as int, end as int);
    let mut dot: Option<usize> = None;
    let mut k: usize = st;
    while k < end
        invariant
            st <= k <= end <= input@.len(),
            s == input@,
            w == s.subrange(st as int, end as int),
            forall|i: int| st <= i < k ==> (crate::chars::is_ascii_digit(#[trigger] s[i]) || s[i] == '.'),
            forall|i: int, j: int| #![trigger s[i], s[j]] st <= i < j < k && s[i] == '.' ==> s[j] != '.',
            match dot {
                Some(d) => st <= d < k && s[d as int] == '.',
                None => forall|i: int| st <= i < k ==> #[trigger] s[i] != '.',
            },
        decreases end - k,
    {
        let c = input[k];
        let u: u32 = c as u32;
        if c == '.' {
            match dot {
                Some(d) => {
                    assert(w[d - st] == '.' && w[k - st] == '.');
                    return Err(LexError::InvalidNumber);
                },
                None => {
                    dot = Some(k);
                },
            }
        } else if !(48 <= u && u <= 57) {
            assert(!(crate::chars::is_ascii_digit(w[k - st]) || w[k - st] == '.'));
            return Err(LexError::InvalidNumber);
        }
        k = k + 1;
    }
    assert forall|i: int| 0 <= i < w.len() implies (crate::chars::is_ascii_digit(#[trigger] w[i]) || w[i] == '.') by {
        assert(w[i] == s[st + i]);
    }
    assert forall|i: int, j: int| #![trigger w[i], w[j]] 0 <= i < j < w.len() && w[i] == '.' implies w[j] != '.' by {
        assert(w[i] == s[st + i] && w[j] == s[st + j]);
    }
    Ok(Token::Number(text_of(input, st, end)))
}

/// The token for a two-character symbol: `c` followed by `=`.
fn pair_token(c: char) -> (r: Token)
    requires
        pairs_with_eq(c),
    ensures
        r == pair_of(c),
{
    if c == '=' {
        Token::Equals
    } else if c == '!' {
        Token::NotEquals
    } else if c == '<' {
        Token::LessEqual
    } else {
        Token::GreaterEqual
    }
}

/// The token for a single punctuation character (unknown for any other).
fn punct_token(c: char) -> (r: Token)
    ensures
        r == punct_of(c),
{
    match c {
        ':' => Token::Colon,
        ';' => Token::Semicolon,
        '(' => Token::OpenParen,
        ')' => Token::CloseParen,
        '[' => Token::OpenBracket,
        ']' => Token::CloseBracket,
        '{' => Token::OpenBrace,
        '}' => Token::CloseBrace,
        '.' => Token::Dot,
        ',' => Token::Comma,
        '+' => Token::Plus,
        '-' => Token::Minus,
        '*' => Token::Times,
        '/' => Token::Divide,
        '=' => Token::Assignment,
        '!' => Token::Not,
        '<' => Token::LessThan,
        '>' => Token::GreaterThan,
        _ => Token::Unknown,
    }
}

pub struct Lexer {
    input: Vec<char>,
    idx: usize,
}

impl Lexer {
    /// The characters being read.
    pub closed spec fn chars(&self) -> Seq<char> {
        self.input@
    }

    /// Index of the next unread character.
    pub closed spec fn cursor(&self) -> int {
        self.idx as int
    }

    pub open spec fn wf(&self) -> bool {
        0 <= self.cursor() <= self.chars().len()
    }

    pub fn new(input: Vec<char>) -> (r: Lexer)
        ensures
            r.chars() == input@,
            r.cursor() == 0,
            r.wf(),
    {
        Lexer { input, idx: 0 }
    }

    /// Reads the longest run of letters and digits starting at `st` (a
    /// letter) as a keyword or an identifier.
    fn get_identifier(&mut self, st: usize) -> (r: Token)
        requires
            st < old(self).chars().len() <= usize::MAX,
            is_letter(old(self).chars()[st as int]),
        ensures
            final(self).chars() == old(self).chars(),
            final(self).cursor() == token_end(old(self).chars(), st as int),
            st < final(self).cursor() <= old(self).chars().len(),
            !lexeme_error(old(self).chars().subrange(st as int, final(self).cursor())),
            lexeme_token(old(self).chars().subrange(st as int, final(self).cursor()), r),
    {
        let end = scan_alnum_from(&self.input, st + 1);
        self.idx = end;
        word_token(&self.input, st, end)
    }

    /// Reads the longest run of numeric characters and dots starting at
    /// `st` (a numeric character that is not a letter) as a number literal.
    fn get_number(&mut self, st: usize) -> (r: Result<Token, LexError>)
        requires
            st < old(self).chars().len() <= usize::MAX,
            !is_letter(old(self).chars()[st as int]),
            is_numeric(old(self).chars()[st as int]),
        ensures
            final(self).chars() == old(self).chars(),
            final(self).cursor() == token_end(old(self).chars(), st as int),
            st < final(self).cursor() <= old(self).chars().len(),
            ({
                let w = old(self).chars().subrange(st as int, final(self).cursor());
                match r {
                    Ok(t) => !lexeme_error(w) && lexeme_token(w, t),
                    Err(e) => lexeme_error(w) && e == LexError::InvalidNumber,
                }
            }),
    {
        let end = scan_number_from(&self.input, st + 1);
        self.idx = end;
        number_token(&self.input, st, end)
    }

    /// Reads the next token. Leading whitespace is skipped; at the end of
    /// the input the end-of-input token is returned (again on every later
    /// call). A number literal with more than one dot, or with a numeric
    /// character that is not an ASCII digit, is an error; the cursor then
    /// still moves past it.
    pub fn get_token(&mut self) -> (r: Result<Token, LexError>)
        requires
            old(self).wf(),
        ensures
            final(self).wf(),
            final(self).chars() == old(self).chars(),
            ({
                let s = old(self).chars();
                let st = skip_space(s, old(self).cursor());
                if st >= s.len() {
                    r == Ok::<Token, LexError>(Token::EOF) && final(self).cursor() == s.len()
                } else {
                    let w = s.subrange(st, token_end(s, st));
                    &&& final(self).cursor() == token_end(s, st)
                    &&& old(self).cursor() < final(self).cursor()
                    &&& match r {
                        Ok(t) => !lexeme_error(w) && lexeme_token(w, t),
                        Err(e) => lexeme_error(w) && e == LexError::InvalidNumber,
                    }
                }
            }),
    {
        let len = self.input.len();
        let st = skip_spaces(&self.input, self.idx);
        if st >= len {
            self.idx = len;
            return Ok(Token::EOF);
        }
        let c = self.input[st];
        if letter(c) {
            return Ok(self.get_identifier(st));
        }
        if numeric(c) {
            return self.get_number(st);
        }
        if c == '#' {
            let end = scan_comment_from(&self.input, st + 1);
            self.idx = end;
            return Ok(Token::Comment);
        }
        if (c == '=' || c == '!' || c == '<' || c == '>') && st + 1 < len && self.input[st + 1] == '=' {
            self.idx = st + 2;
            let ghost w = self.input@.subrange(st as int, st + 2);
            assert(w.len() == 2 && w[0] == c);
            return Ok(pair_token(c));
        }
        self.idx = st + 1;
        let ghost w = self.input@.subrange(st as int, st + 1);
        assert(w.len() == 1 && w[0] == c);
        Ok(punct_token(c))
    }
}

} // verus!

verus! {

/// Reads the whole input: every token up to and including the end-of-input
/// token, with comments left out. Fails exactly when some number literal in
/// the input is malformed.
pub fn tokenize(input: Vec<char>) -> (r: Result<Vec<Token>, LexError>)
    ensures
        r is Err <==> lex_error_from(input@, 0),
        match r {
            Ok(v) => lexes_from(input@, 0, v@) && parser_ready(v@),
            Err(e) => e == LexError::InvalidNumber,
        },
{
    let ghost s = input@;
    let mut lexer = Lexer::new(input);
    let mut out: Vec<Token> = Vec::new();
    loop
        invariant
            lexer.wf(),
            lexer.chars() == s,
            s == input@,
            lex_error_from(s, lexer.cursor()) == lex_error_from(s, 0),
            forall|v: Seq<Token>| #[trigger] lexes_from(s, lexer.cursor(), v) ==> lexes_from(s, 0, out@ + v),
        decreases s.len() - lexer.cursor(),
    {
        let ghost c = lexer.cursor();
        let ghost before = out@;
        match lexer.get_token() {
            Err(e) => {
                assert(lex_error_from(s, c));
                return Err(e);
            },
            Ok(Token::EOF) => {
                out.push(Token::EOF);
                assert(lexes_from(s, c, seq![Token::EOF]));
                assert(before + seq![Token::EOF] =~= out@);
                assert(lexes_from(s, 0, before + seq![Token::EOF]));
                assert(!lex_error_from(s, c));
                proof {
                    lemma_lexed_ready(s, 0, out@);
                }
                return Ok(out);
            },
            Ok(Token::Comment) => {
                assert forall|v: Seq<Token>| #[trigger] lexes_from(s, lexer.cursor(), v) implies lexes_from(s, 0, out@ + v) by {
                    assert(lexes_from(s, c, v));
                }
            },
            Ok(t) => {
                out.push(t);
                assert forall|v: Seq<Token>| #[trigger] lexes_from(s, lexer.cursor(), v) implies lexes_from(s, 0, out@ + v) by {
                    let tv = seq![t] + v;
                    assert(tv[0] == t);
                    assert(tv.drop_first() =~= v);
                    assert(lexes_from(s, c, tv));
                    assert(before + tv =~= out@ + v);
                }
            },
        }
    }
}

/// Whatever the input, the token sequence read from it holds no comment
/// and ends with its only end-of-input token.
pub proof fn lemma_lexed_ready(s: Seq<char>, i: int, v: Seq<Token>)
    requires
        lexes_from(s, i, v),
    ensures
        parser_ready(v),
    decreases s.len() - i,
{
    let st = skip_space(s, i);
    if st < s.len() {
        let e = token_end(s, st);
        let w = s.subrange(st, e);
        if lexeme_token(w, Token::Comment) {
            lemma_lexed_ready(s, e, v);
        } else {
            let rest = v.drop_first();
            lemma_lexed_ready(s, e, rest);
            assert(v[0] != Token::Comment && v[0] != Token::EOF);
            assert forall|k: int| 0 <= k < v.len() implies #[trigger] v[k] != Token::Comment by {
                if k > 0 {
                    assert(v[k] == rest[k - 1]);
                }
            }
            assert forall|k: int| 0 <= k < v.len() - 1 implies #[trigger] v[k] != Token::EOF by {
                if k > 0 {
                    assert(v[k] == rest[k - 1]);
                }
            }
            assert(v.last() == rest.last());
        }
    }
}

/// A character of the punctuation table, read alone, is one token of its
/// own (the table's entry for it), and the input ends right after it.
pub proof fn lemma_single_punctuation(c: char)
    requires
        is_punct(c),
    ensures
        ({
            let s = seq![c];
            &&& skip_space(s, 0) == 0
            &&& token_end(s, 0) == 1
            &&& s.subrange(0, 1) == s
            &&& !lexeme_error(s)
            &&& lexeme_token(s, punct_of(c))
            &&& skip_space(s, 1) == 1
        }),
{
    let s = seq![c];
    assert(s.subrange(0, 1) =~= s);
    assert(s[0] == c);
}

} // verus!
