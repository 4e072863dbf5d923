//! The lexer: a single left-to-right pass turning source text into an
//! ordered sequence of tokens.
//!
//! The spec-level function [`lex_from`] defines the token sequence (or the
//! error) for any text, and [`tokenize_program`] is proved to return exactly
//! that. Whitespace is skipped, `#` starts a line comment, consecutive
//! digits form one integer literal, consecutive letters or underscores form
//! one keyword or identifier, and a fixed set of single characters map
//! directly to operator and punctuation tokens. Any other character aborts
//! the scan; no partial token list is returned on error.

use vstd::prelude::*;
use vstd::string::*;
use crate::token::{Token, TokenV};
use crate::numeral::push_char;

verus! {

/// A lexing failure. The scan aborts at the first failure.
#[derive(Debug, Clone, PartialEq)]
pub enum LexerError {
    /// An integer literal outside the 32-bit signed range.
    InvalidInteger,
    /// A character outside every defined character class.
    InvalidCharacter(String),
}

/// Model of [`LexerError`].
pub enum LexerErrorV {
    InvalidInteger,
    InvalidCharacter(Seq<char>),
}

impl DeepView for LexerError {
    type V = LexerErrorV;

    open spec fn deep_view(&self) -> LexerErrorV {
        match self {
            LexerError::InvalidInteger => LexerErrorV::InvalidInteger,
            LexerError::InvalidCharacter(s) => LexerErrorV::InvalidCharacter(s@),
        }
    }
}

/* Character classes. */

/// The characters with the Unicode `White_Space` property, which is the
/// set that `char::is_whitespace` accepts.
pub open spec fn is_space_char(c: char) -> bool {
    c == ' ' || c == '\t' || c == '\n' || c == '\u{0B}' || c == '\u{0C}' || c == '\r'
        || c == '\u{85}' || c == '\u{A0}' || c == '\u{1680}' || (0x2000 <= c as u32
        && c as u32 <= 0x200A) || c == '\u{2028}' || c == '\u{2029}' || c == '\u{202F}'
        || c == '\u{205F}' || c == '\u{3000}'
}

/// An ASCII decimal digit.
pub open spec fn is_digit_char(c: char) -> bool {
    48 <= c as u32 && c as u32 <= 57
}

/// An ASCII letter or an underscore: the characters that may start or
/// continue a keyword or identifier.
pub open spec fn is_name_char(c: char) -> bool {
    (65 <= c as u32 && c as u32 <= 90) || (97 <= c as u32 && c as u32 <= 122) || c == '_'
}

/// The token of a single-character operator or punctuation mark, if the
/// character is one.
pub open spec fn single_token_of(c: char) -> Option<TokenV> {
    if c == '+' {
        Some(TokenV::Add)
    } else if c == '-' {
        Some(TokenV::Sub)
    } else if c == '*' {
        Some(TokenV::Mul)
    } else if c == '/' {
        Some(TokenV::Div)
    } else if c == '?' {
        Some(TokenV::Is)
    } else if c == '!' {
        Some(TokenV::Not)
    } else if c == '&' {
        Some(TokenV::And)
    } else if c == '|' {
        Some(TokenV::Or)
    } else if c == '(' {
        Some(TokenV::LParen)
    } else if c == ')' {
        Some(TokenV::RParen)
    } else if c == '{' {
        Some(TokenV::LBrace)
    } else if c == '}' {
        Some(TokenV::RBrace)
    } else if c == ';' {
        Some(TokenV::Semicolon)
    } else if c == '=' {
        Some(TokenV::Equals)
    } else if c == '>' {
        Some(TokenV::Greater)
    } else if c == '<' {
        Some(TokenV::Less)
    } else {
        None
    }
}

/// The token of a completed name run: one of the six keywords, or an
/// identifier carrying the name itself.
pub open spec fn keyword_or_var(w: Seq<char>) -> TokenV {
    if w == "let"@ {
        TokenV::Let
    } else if w == "be"@ {
        TokenV::Be
    } else if w == "set"@ {
        TokenV::SetKw
    } else if w == "to"@ {
        TokenV::To
    } else if w == "rep"@ {
        TokenV::Rep
    } else if w == "print"@ {
        TokenV::Print
    } else {
        TokenV::Variable(w)
    }
}

/* Runs of characters. */

/// The position of the first newline at or after `i`, or the end of the
/// text: a `#` comment reaches up to but not including this position.
pub open spec fn comment_end(s: Seq<char>, i: int) -> int
    decreases s.len() - i,
{
    if i < 0 || s.len() <= i || s[i] == '\n' {
        i
    } else {
        comment_end(s, i + 1)
    }
}

/// The position of the first non-digit at or after `i`, or the end of the
/// text.
pub open spec fn digit_run_end(s: Seq<char>, i: int) -> int
    decreases s.len() - i,
{
    if i < 0 || s.len() <= i || !is_digit_char(s[i]) {
        i
    } else {
        digit_run_end(s, i + 1)
    }
}

/// The position of the first character at or after `i` that is neither a
/// letter nor an underscore, or the end of the text.
pub open spec fn name_run_end(s: Seq<char>, i: int) -> int
    decreases s.len() - i,
{
    if i < 0 || s.len() <= i || !is_name_char(s[i]) {
        i
    } else {
        name_run_end(s, i + 1)
    }
}

/// The value of the digit string `s[i..j)` read in decimal.
pub open spec fn digits_val(s: Seq<char>, i: int, j: int) -> int
    decreases j - i,
{
    if j <= i {
        0
    } else {
        digits_val(s, i, j - 1) * 10 + (s[j - 1] as u32 - 48)
    }
}

/// The largest value of an integer literal: `i32::MAX`. Literals carry no
/// sign, so only the positive bound can be exceeded.
pub open spec fn max_literal() -> int {
    0x7FFF_FFFF
}

proof fn lemma_comment_end_bounds(s: Seq<char>, i: int)
    requires
        0 <= i <= s.len(),
    ensures
        i <= comment_end(s, i) <= s.len(),
    decreases s.len() - i,
{
    if i < s.len() && s[i] != '\n' {
        lemma_comment_end_bounds(s, i + 1);
    }
}

proof fn lemma_digit_run_end_bounds(s: Seq<char>, i: int)
    requires
        0 <= i <= s.len(),
    ensures
        i <= digit_run_end(s, i) <= s.len(),
    decreases s.len() - i,
{
    if i < s.len() && is_digit_char(s[i]) {
        lemma_digit_run_end_bounds(s, i + 1);
    }
}

proof fn lemma_name_run_end_bounds(s: Seq<char>, i: int)
    requires
        0 <= i <= s.len(),
    ensures
        i <= name_run_end(s, i) <= s.len(),
    decreases s.len() - i,
{
    if i < s.len() && is_name_char(s[i]) {
        lemma_name_run_end_bounds(s, i + 1);
    }
}

proof fn lemma_digits_val_nonneg(s: Seq<char>, i: int, j: int)
    requires
        forall|k: int| i <= k < j ==> is_digit_char(s[k]),
    ensures
        digits_val(s, i, j) >= 0,
    decreases j - i,
{
    if j > i {
        lemma_digits_val_nonneg(s, i, j - 1);
    }
}

/* The spec-level lexer. */


/// Prepends a token to a lexing result, keeping an error unchanged.
pub open spec fn cons_tok(t: TokenV, r: Result<Seq<TokenV>, LexerErrorV>) -> Result<
    Seq<TokenV>,
    LexerErrorV,
> {
    match r {
        Ok(rest) => Ok(seq![t] + rest),
        Err(e) => Err(e),
    }
}

/// The token sequence of the text from position `i` on, or the first
/// lexing error at or after `i`.
pub open spec fn lex_from(s: Seq<char>, i: int) -> Result<Seq<TokenV>, LexerErrorV>
    decreases s.len() - i,
    via lex_from_dec
{
    if i < 0 || s.len() <= i {
        Ok(Seq::empty())
    } else {
        let c = s[i];
        if is_space_char(c) {
            lex_from(s, i + 1)
        } else if c == '#' {
            lex_from(s, comment_end(s, i + 1))
        } else if single_token_of(c) is Some {
            cons_tok(single_token_of(c)->Some_0, lex_from(s, i + 1))
        } else if is_digit_char(c) {
            let j = digit_run_end(s, i + 1);
            if digits_val(s, i, j) > max_literal() {
                Err(LexerErrorV::InvalidInteger)
            } else {
                cons_tok(TokenV::Constant(digits_val(s, i, j)), lex_from(s, j))
            }
        } else if is_name_char(c) {
            let j = name_run_end(s, i + 1);
            cons_tok(keyword_or_var(s.subrange(i, j)), lex_from(s, j))
        } else {
            Err(LexerErrorV::InvalidCharacter(seq![c]))
        }
    }
}

#[via_fn]
proof fn lex_from_dec(s: Seq<char>, i: int) {
    if 0 <= i && i < s.len() {
        lemma_comment_end_bounds(s, i + 1);
        lemma_digit_run_end_bounds(s, i + 1);
        lemma_name_run_end_bounds(s, i + 1);
    }
}

/// Holds while the scan stands at position `i` with the tokens `done`
/// already produced: the whole text's lexing result is `done` followed by
/// whatever lexing from `i` yields, and any error from `i` on is the whole
/// text's error.
pub open spec fn lex_step_ok(s: Seq<char>, i: int, done: Seq<TokenV>) -> bool {
    match lex_from(s, i) {
        Ok(rest) => lex_from(s, 0) == Ok::<Seq<TokenV>, LexerErrorV>(done + rest),
        Err(e) => lex_from(s, 0) == Err::<Seq<TokenV>, LexerErrorV>(e),
    }
}

proof fn lemma_lex_cons_step(s: Seq<char>, i: int, k: int, t: TokenV, done: Seq<TokenV>)
    requires
        lex_step_ok(s, i, done),
        lex_from(s, i) == cons_tok(t, lex_from(s, k)),
    ensures
        lex_step_ok(s, k, done.push(t)),
{
    match lex_from(s, k) {
        Ok(rest) => {
            assert(done + (seq![t] + rest) =~= done.push(t) + rest);
        },
        Err(e) => {},
    }
}


/* The lexer's character classes, as laws. */

/// The defined character classes: whitespace, the comment mark, the
/// single-character tokens, digits, and name characters.
pub open spec fn defined_char(c: char) -> bool {
    is_space_char(c) || c == '#' || single_token_of(c) is Some || is_digit_char(c)
        || is_name_char(c)
}

/// Lexing is total on the defined character classes: text made only of
/// them never yields `InvalidCharacter`; the one remaining failure is an
/// integer literal outside the 32-bit range.
pub proof fn lemma_lex_total_on_defined_chars(s: Seq<char>, i: int)
    requires
        forall|k: int| i <= k < s.len() ==> defined_char(#[trigger] s[k]),
    ensures
        lex_from(s, i) is Ok || lex_from(s, i) == Err::<Seq<TokenV>, LexerErrorV>(
            LexerErrorV::InvalidInteger,
        ),
    decreases s.len() - i,
{
    if 0 <= i && i < s.len() {
        let c = s[i];
        if is_space_char(c) {
            lemma_lex_total_on_defined_chars(s, i + 1);
        } else if c == '#' {
            lemma_comment_end_bounds(s, i + 1);
            lemma_lex_total_on_defined_chars(s, comment_end(s, i + 1));
        } else if single_token_of(c) is Some {
            lemma_lex_total_on_defined_chars(s, i + 1);
        } else if is_digit_char(c) {
            lemma_digit_run_end_bounds(s, i + 1);
            lemma_lex_total_on_defined_chars(s, digit_run_end(s, i + 1));
        } else if is_name_char(c) {
            lemma_name_run_end_bounds(s, i + 1);
            lemma_lex_total_on_defined_chars(s, name_run_end(s, i + 1));
        } else {
            assert(defined_char(s[i]));
            assert(false);
        }
    }
}


/// Whether the scan from position `i` on can succeed: every position the
/// scan reaches outside comments holds a defined character, and every
/// integer literal it reads fits in the 32-bit signed range.
pub open spec fn scan_ok(s: Seq<char>, i: int) -> bool
    decreases s.len() - i,
    via scan_ok_dec
{
    if i < 0 || s.len() <= i {
        true
    } else {
        let c = s[i];
        if is_space_char(c) {
            scan_ok(s, i + 1)
        } else if c == '#' {
            scan_ok(s, comment_end(s, i + 1))
        } else if single_token_of(c) is Some {
            scan_ok(s, i + 1)
        } else if is_digit_char(c) {
            let j = digit_run_end(s, i + 1);
            digits_val(s, i, j) <= max_literal() && scan_ok(s, j)
        } else if is_name_char(c) {
            scan_ok(s, name_run_end(s, i + 1))
        } else {
            false
        }
    }
}

#[via_fn]
proof fn scan_ok_dec(s: Seq<char>, i: int) {
    if 0 <= i && i < s.len() {
        lemma_comment_end_bounds(s, i + 1);
        lemma_digit_run_end_bounds(s, i + 1);
        lemma_name_run_end_bounds(s, i + 1);
    }
}

/// Lexing succeeds exactly when the scan stays on defined characters and
/// every integer literal is in range: text whose scan positions outside
/// comments all hold defined characters, with every maximal digit run's
/// value at most `i32::MAX`, always lexes to a token sequence, and any
/// other text always fails.
pub proof fn lemma_lex_ok_iff_scan_ok(s: Seq<char>, i: int)
    ensures
        lex_from(s, i) is Ok <==> scan_ok(s, i),
    decreases s.len() - i,
{
    if 0 <= i && i < s.len() {
        let c = s[i];
        if is_space_char(c) {
            lemma_lex_ok_iff_scan_ok(s, i + 1);
        } else if c == '#' {
            lemma_comment_end_bounds(s, i + 1);
            lemma_lex_ok_iff_scan_ok(s, comment_end(s, i + 1));
        } else if single_token_of(c) is Some {
            lemma_lex_ok_iff_scan_ok(s, i + 1);
        } else if is_digit_char(c) {
            lemma_digit_run_end_bounds(s, i + 1);
            lemma_lex_ok_iff_scan_ok(s, digit_run_end(s, i + 1));
        } else if is_name_char(c) {
            lemma_name_run_end_bounds(s, i + 1);
            lemma_lex_ok_iff_scan_ok(s, name_run_end(s, i + 1));
        }
    }
}


/// The position where the scan from `i` stops on an undefined character:
/// it steps over whitespace, comments, single-character tokens and digit
/// and name runs exactly as the lexer does, and stands still at the first
/// undefined character it reaches, or at the end of the text.
pub open spec fn scan_stop(s: Seq<char>, i: int) -> int
    decreases s.len() - i,
    via scan_stop_dec
{
    if i < 0 || s.len() <= i {
        i
    } else {
        let c = s[i];
        if is_space_char(c) {
            scan_stop(s, i + 1)
        } else if c == '#' {
            scan_stop(s, comment_end(s, i + 1))
        } else if single_token_of(c) is Some {
            scan_stop(s, i + 1)
        } else if is_digit_char(c) {
            scan_stop(s, digit_run_end(s, i + 1))
        } else if is_name_char(c) {
            scan_stop(s, name_run_end(s, i + 1))
        } else {
            i
        }
    }
}

#[via_fn]
proof fn scan_stop_dec(s: Seq<char>, i: int) {
    if 0 <= i && i < s.len() {
        lemma_comment_end_bounds(s, i + 1);
        lemma_digit_run_end_bounds(s, i + 1);
        lemma_name_run_end_bounds(s, i + 1);
    }
}

/// An `InvalidCharacter` failure names exactly the first undefined
/// character that the scan reaches — the leftmost one outside comments —
/// and that is where the scan stopped.
pub proof fn lemma_invalid_char_is_first_reached(s: Seq<char>, i: int, d: Seq<char>)
    requires
        lex_from(s, i) == Err::<Seq<TokenV>, LexerErrorV>(LexerErrorV::InvalidCharacter(d)),
    ensures
        0 <= scan_stop(s, i) < s.len(),
        !defined_char(s[scan_stop(s, i)]),
        d == seq![s[scan_stop(s, i)]],
    decreases s.len() - i,
{
    if 0 <= i && i < s.len() {
        let c = s[i];
        if is_space_char(c) {
            lemma_invalid_char_is_first_reached(s, i + 1, d);
        } else if c == '#' {
            lemma_comment_end_bounds(s, i + 1);
            lemma_invalid_char_is_first_reached(s, comment_end(s, i + 1), d);
        } else if single_token_of(c) is Some {
            lemma_invalid_char_is_first_reached(s, i + 1, d);
        } else if is_digit_char(c) {
            lemma_digit_run_end_bounds(s, i + 1);
            lemma_invalid_char_is_first_reached(s, digit_run_end(s, i + 1), d);
        } else if is_name_char(c) {
            lemma_name_run_end_bounds(s, i + 1);
            lemma_invalid_char_is_first_reached(s, name_run_end(s, i + 1), d);
        }
    }
}

/* The executable lexer. */

/// Decides [`is_space_char`].
fn is_space(c: char) -> (r: bool)
    ensures
        r == is_space_char(c),
{
    c == ' ' || c == '\t' || c == '\n' || c == '\u{0B}' || c == '\u{0C}' || c == '\r'
        || c == '\u{85}' || c == '\u{A0}' || c == '\u{1680}' || (0x2000 <= c as u32
        && c as u32 <= 0x200A) || c == '\u{2028}' || c == '\u{2029}' || c == '\u{202F}'
        || c == '\u{205F}' || c == '\u{3000}'
}

/// Decides [`is_digit_char`].
fn is_digit(c: char) -> (r: bool)
    ensures
        r == is_digit_char(c),
{
    let u = c as u32;
    48 <= u && u <= 57
}

/// Decides [`is_name_char`].
fn is_name(c: char) -> (r: bool)
    ensures
        r == is_name_char(c),
{
    let u = c as u32;
    (65 <= u && u <= 90) || (97 <= u && u <= 122) || c == '_'
}

/// Maps a single-character operator or punctuation mark to its token.
fn single_char_token(c: char) -> (r: Option<Token>)
    ensures
        match r {
            Some(t) => single_token_of(c) == Some(t.deep_view()),
            None => single_token_of(c) is None,
        },
{
    match c {
        '+' => Some(Token::Add),
        '-' => Some(Token::Sub),
        '*' => Some(Token::Mul),
        '/' => Some(Token::Div),
        '?' => Some(Token::Is),
        '!' => Some(Token::Not),
        '&' => Some(Token::And),
        '|' => Some(Token::Or),
        '(' => Some(Token::LParen),
        ')' => Some(Token::RParen),
        '{' => Some(Token::LBrace),
        '}' => Some(Token::RBrace),
        ';' => Some(Token::Semicolon),
        '=' => Some(Token::Equals),
        '>' => Some(Token::Greater),
        '<' => Some(Token::Less),
        _ => None,
    }
}

/// Maps a completed name run to its keyword token, or to an identifier
/// token carrying the name.
fn word_token(word: String) -> (t: Token)
    ensures
        t.deep_view() == keyword_or_var(word@),
{
    if word == String::from_str("let") {
        Token::Let
    } else if word == String::from_str("be") {
        Token::Be
    } else if word == String::from_str("set") {
        Token::SetKw
    } else if word == String::from_str("to") {
        Token::To
    } else if word == String::from_str("rep") {
        Token::Rep
    } else if word == String::from_str("print") {
        Token::Print
    } else {
        Token::Variable(word)
    }
}

/// Scans the whole text into its token sequence, or reports the first
/// lexing error; on error no partial token list is returned.
pub fn tokenize_program(data: &str) -> (r: Result<Vec<Token>, LexerError>)
    ensures
        match r {
            Ok(tokens) => lex_from(data@, 0) == Ok::<Seq<TokenV>, LexerErrorV>(tokens.deep_view()),
            Err(e) => lex_from(data@, 0) == Err::<Seq<TokenV>, LexerErrorV>(e.deep_view()),
        },
{
    let ghost s = data@;
    let n = data.unicode_len();
    let mut tokens: Vec<Token> = Vec::new();
    let mut i: usize = 0;

    proof {
        if lex_from(s, 0) is Ok {
            assert(Seq::<TokenV>::empty() + lex_from(s, 0)->Ok_0 =~= lex_from(s, 0)->Ok_0);
        }
        assert(tokens.deep_view() =~= Seq::<TokenV>::empty());
    }

    while i < n
        invariant
            s == data@,
            n == s.len(),
            i <= n,
            lex_step_ok(s, i as int, tokens.deep_view()),
        decreases n - i,
    {
        let c = data.get_char(i);
        if is_space(c) {
            i = i + 1;
        } else if c == '#' {
            let mut j = i + 1;
            while j < n && data.get_char(j) != '\n'
                invariant
                    s == data@,
                    n == s.len(),
                    i + 1 <= j <= n,
                    comment_end(s, i as int + 1) == comment_end(s, j as int),
                decreases n - j,
            {
                j = j + 1;
            }
            assert(comment_end(s, j as int) == j as int);
            i = j;
        } else if let Some(t) = single_char_token(c) {
            let ghost done = tokens.deep_view();
            let ghost tv = t.deep_view();
            tokens.push(t);
            proof {
                lemma_lex_cons_step(s, i as int, i as int + 1, tv, done);
                assert(tokens.deep_view() =~= done.push(tv));
            }
            i = i + 1;
        } else if is_digit(c) {
            let ghost i0 = i as int;
            let mut j = i + 1;
            let mut val: u64 = (c as u32 - 48) as u64;
            let mut over: bool = false;
            proof {
                assert(digits_val(s, i0, i0) == 0);
            }
            while j < n && is_digit(data.get_char(j))
                invariant
                    s == data@,
                    n == s.len(),
                    0 <= i0,
                    i0 + 1 <= j <= n,
                    forall|k: int| i0 <= k < j ==> is_digit_char(s[k]),
                    digit_run_end(s, i0 + 1) == digit_run_end(s, j as int),
                    !over ==> val == digits_val(s, i0, j as int) && val <= 0x7FFF_FFFF,
                    over ==> digits_val(s, i0, j as int) > 0x7FFF_FFFF,
                decreases n - j,
            {
                let d = data.get_char(j) as u32 - 48;
                if !over {
                    val = val * 10 + d as u64;
                    if val > 0x7FFF_FFFF {
                        over = true;
                    }
                } else {
                    proof {
                        lemma_digits_val_nonneg(s, i0, j as int);
                    }
                }
                j = j + 1;
            }
            assert(digit_run_end(s, j as int) == j as int);
            if over {
                return Err(LexerError::InvalidInteger);
            }
            let ghost done = tokens.deep_view();
            let t = Token::Constant(val as i32);
            let ghost tv = t.deep_view();
            tokens.push(t);
            proof {
                lemma_lex_cons_step(s, i as int, j as int, tv, done);
                assert(tokens.deep_view() =~= done.push(tv));
            }
            i = j;
        } else if is_name(c) {
            let ghost i0 = i as int;
            let mut j = i + 1;
            let mut word = String::new();
            push_char(&mut word, c);
            proof {
                assert(word@ =~= s.subrange(i0, i0 + 1));
            }
            while j < n && is_name(data.get_char(j))
                invariant
                    s == data@,
                    n == s.len(),
                    0 <= i0,
                    i0 + 1 <= j <= n,
                    word@ == s.subrange(i0, j as int),
                    name_run_end(s, i0 + 1) == name_run_end(s, j as int),
                decreases n - j,
            {
                let ghost prev = word@;
                let c2 = data.get_char(j);
                push_char(&mut word, c2);
                proof {
                    assert(word@ == prev.push(c2));
                    assert(c2 == s[j as int]);
                    assert(word@ =~= s.subrange(i0, j as int + 1));
                }
                j = j + 1;
            }
            assert(name_run_end(s, j as int) == j as int);
            let ghost done = tokens.deep_view();
            let t = word_token(word);
            let ghost tv = t.deep_view();
            tokens.push(t);
            proof {
                lemma_lex_cons_step(s, i as int, j as int, tv, done);
                assert(tokens.deep_view() =~= done.push(tv));
            }
            i = j;
        } else {
            let mut msg = String::new();
            push_char(&mut msg, c);
            proof {
                assert(msg@ =~= seq![c]);
            }
            return Err(LexerError::InvalidCharacter(msg));
        }
    }
    proof {
        if lex_from(s, i as int) is Ok {
            assert(tokens.deep_view() + lex_from(s, i as int)->Ok_0 =~= tokens.deep_view());
        }
    }
    Ok(tokens)
}

} // verus!
