//! Lexer for capability strings.
//!
//! A capability string is scanned left to right into a sequence of [`Token`]s.
//! At each position the longest rule wins: parentheses are single-character
//! tokens; any maximal run of word characters (letters, digits, `_`, `.`)
//! becomes the `vcp` keyword, a two-digit hexadecimal byte, or a bare
//! identifier; ASCII space and NUL are skipped between tokens.  A character
//! that fits no rule stops the scan, and its position is reported.

use vstd::prelude::*;

verus! {

/// One lexical unit of a capability string.
#[derive(Clone, Copy, Debug, PartialEq, Eq, Structural)]
pub enum Token {
    /// The literal `(`.
    LeftParen,
    /// The literal `)`.
    RightParen,
    /// The literal keyword `vcp`.
    Vcp,
    /// A two-digit uppercase hexadecimal byte, such as `60`.
    HexNumber(u8),
    /// Any other run of word characters: model names, protocol tags,
    /// version numbers and the like.
    Unknown,
}

impl Token {
    /// A human-readable name for the token's kind, for diagnostics.
    pub fn label(&self) -> (r: &'static str)
        ensures
            *self == Token::LeftParen ==> r@ == "'('"@,
            *self == Token::RightParen ==> r@ == "')'"@,
            *self == Token::Vcp ==> r@ == "'vcp'"@,
            (*self matches Token::HexNumber(_)) ==> r@ == "hexadecimal number"@,
            *self == Token::Unknown ==> r@ == "unknown"@,
    {
        match self {
            Token::LeftParen => "'('",
            Token::RightParen => "')'",
            Token::Vcp => "'vcp'",
            Token::HexNumber(_) => "hexadecimal number",
            Token::Unknown => "unknown",
        }
    }
}

/// Characters skipped between tokens: ASCII space, and the NUL byte that
/// displays commonly append to their capability strings.
pub open spec fn is_skip_char(c: char) -> bool {
    c == ' ' || c == '\u{0}'
}

/// Characters that may form a word run: ASCII letters, digits, `_` and `.`.
pub open spec fn is_word_char(c: char) -> bool {
    ('a' <= c && c <= 'z') || ('A' <= c && c <= 'Z') || ('0' <= c && c <= '9') || c == '_'
        || c == '.'
}

/// Digits of the uppercase hexadecimal byte pattern.
pub open spec fn is_hex_digit(c: char) -> bool {
    ('0' <= c && c <= '9') || ('A' <= c && c <= 'F')
}

/// The numeric value of one hexadecimal digit.
pub open spec fn hex_digit_value(c: char) -> u8
    recommends
        is_hex_digit(c),
{
    if '0' <= c && c <= '9' {
        (c as int - '0' as int) as u8
    } else {
        (c as int - 'A' as int + 10) as u8
    }
}

/// The byte written by the two hexadecimal digits `hi` `lo`.
pub open spec fn hex_byte_value(hi: char, lo: char) -> u8
    recommends
        is_hex_digit(hi),
        is_hex_digit(lo),
{
    (hex_digit_value(hi) * 16 + hex_digit_value(lo)) as u8
}

/// The end of the word run that starts at position `i`: the first position at
/// or after `i` that holds no word character.
pub open spec fn word_end(s: Seq<char>, i: int) -> int
    decreases s.len() - i,
        when 0 <= i <= s.len()
{
    if i < s.len() && is_word_char(s[i]) {
        word_end(s, i + 1)
    } else {
        i
    }
}

pub proof fn lemma_word_end(s: Seq<char>, i: int)
    requires
        0 <= i <= s.len(),
    ensures
        i <= word_end(s, i) <= s.len(),
        forall|k: int| i <= k < word_end(s, i) ==> is_word_char(#[trigger] s[k]),
        word_end(s, i) < s.len() ==> !is_word_char(s[word_end(s, i)]),
    decreases s.len() - i,
{
    if i < s.len() && is_word_char(s[i]) {
        lemma_word_end(s, i + 1);
    }
}

/// The token that a complete word run denotes.  The `vcp` keyword wins over
/// the byte pattern, and a run of any other length or shape is an identifier:
/// this mirrors longest-match lexing with keyword priority, so `vcpx` and
/// `01a` are identifiers, not a keyword or byte followed by a letter.
pub open spec fn run_token(run: Seq<char>) -> Token {
    if run.len() == 3 && run[0] == 'v' && run[1] == 'c' && run[2] == 'p' {
        Token::Vcp
    } else if run.len() == 2 && is_hex_digit(run[0]) && is_hex_digit(run[1]) {
        Token::HexNumber(hex_byte_value(run[0], run[1]))
    } else {
        Token::Unknown
    }
}

/// The token sequence of `s` from position `i` on, or `Err(p)` where `p` is
/// the position of the first character that can start no token.
pub open spec fn spec_tokens_from(s: Seq<char>, i: int) -> Result<Seq<Token>, int>
    decreases s.len() - i,
        when 0 <= i <= s.len()
{
    if i >= s.len() {
        Ok(Seq::empty())
    } else if is_skip_char(s[i]) {
        spec_tokens_from(s, i + 1)
    } else if s[i] == '(' {
        match spec_tokens_from(s, i + 1) {
            Ok(rest) => Ok(seq![Token::LeftParen] + rest),
            Err(p) => Err(p),
        }
    } else if s[i] == ')' {
        match spec_tokens_from(s, i + 1) {
            Ok(rest) => Ok(seq![Token::RightParen] + rest),
            Err(p) => Err(p),
        }
    } else if is_word_char(s[i]) {
        proof {
            lemma_word_end(s, i);
        }
        match spec_tokens_from(s, word_end(s, i)) {
            Ok(rest) => Ok(seq![run_token(s.subrange(i, word_end(s, i)))] + rest),
            Err(p) => Err(p),
        }
    } else {
        Err(i)
    }
}

/// The token sequence of the whole string, or the position of the first
/// unlexable character.
pub open spec fn spec_tokens(s: Seq<char>) -> Result<Seq<Token>, int> {
    spec_tokens_from(s, 0)
}

/// Scans `s` into its token sequence.  On failure the result carries the
/// character position of the first character that can start no token.
pub fn tokenize(s: &str) -> (r: Result<Vec<Token>, usize>)
    ensures
        match r {
            Ok(tokens) => spec_tokens(s@) == Ok::<Seq<Token>, int>(tokens@),
            Err(p) => spec_tokens(s@) == Err::<Seq<Token>, int>(p as int) && p < s@.len()
                && s@.len() <= usize::MAX,
        },
{
    let n = s.unicode_len();
    let mut chars: Vec<char> = Vec::new();
    let mut k: usize = 0;
    while k < n
        invariant
            k <= n,
            n == s@.len(),
            chars@ == s@.subrange(0, k as int),
        decreases n - k,
    {
        chars.push(s.get_char(k));
        k = k + 1;
        proof {
            assert(chars@ =~= s@.subrange(0, k as int));
        }
    }
    proof {
        assert(chars@ =~= s@);
    }

    let mut tokens: Vec<Token> = Vec::new();
    let mut i: usize = 0;
    while i < n
        invariant
            i <= n,
            n == s@.len(),
            chars@ == s@,
            spec_tokens(s@) == match spec_tokens_from(s@, i as int) {
                Ok(rest) => Ok::<Seq<Token>, int>(tokens@ + rest),
                Err(p) => Err::<Seq<Token>, int>(p),
            },
        decreases n - i,
    {
        let ghost done = tokens@;
        let c = chars[i];
        if c == ' ' || c == '\u{0}' {
            i = i + 1;
        } else if c == '(' {
            tokens.push(Token::LeftParen);
            i = i + 1;
            proof {
                lemma_push_step(done, Token::LeftParen, spec_tokens_from(s@, i as int));
            }
        } else if c == ')' {
            tokens.push(Token::RightParen);
            i = i + 1;
            proof {
                lemma_push_step(done, Token::RightParen, spec_tokens_from(s@, i as int));
            }
        } else if is_word_char_exec(c) {
            let mut j: usize = i + 1;
            while j < n
                invariant
                    i < j <= n,
                    n == s@.len(),
                    chars@ == s@,
                    word_end(s@, i as int) == word_end(s@, j as int),
                ensures
                    i < j <= n,
                    word_end(s@, i as int) == j as int,
                decreases n - j,
            {
                if !is_word_char_exec(chars[j]) {
                    break;
                }
                j = j + 1;
            }
            let token = run_token_exec(&chars, i, j);
            tokens.push(token);
            proof {
                lemma_push_step(done, token, spec_tokens_from(s@, j as int));
            }
            i = j;
        } else {
            proof {
                assert(spec_tokens_from(s@, i as int) == Err::<Seq<Token>, int>(i as int));
            }
            return Err(i);
        }
    }
    proof {
        assert(tokens@ + Seq::<Token>::empty() =~= tokens@);
    }
    Ok(tokens)
}

/// One scanning step: pushing the token of the run just consumed onto the
/// tokens emitted so far keeps the accumulated sequence aligned with the
/// specification's head-first recursion.
proof fn lemma_push_step(done: Seq<Token>, t: Token, r: Result<Seq<Token>, int>)
    ensures
        (match r {
            Ok(rest) => Ok::<Seq<Token>, int>(done + (seq![t] + rest)),
            Err(p) => Err::<Seq<Token>, int>(p),
        }) == (match r {
            Ok(rest) => Ok::<Seq<Token>, int>(done.push(t) + rest),
            Err(p) => Err::<Seq<Token>, int>(p),
        }),
{
    match r {
        Ok(rest) => {
            assert(done + (seq![t] + rest) =~= done.push(t) + rest);
        },
        Err(_) => {},
    }
}

/// Executable twin of [`is_word_char`].
fn is_word_char_exec(c: char) -> (r: bool)
    ensures
        r == is_word_char(c),
{
    ('a' <= c && c <= 'z') || ('A' <= c && c <= 'Z') || ('0' <= c && c <= '9') || c == '_'
        || c == '.'
}

/// Executable twin of [`is_hex_digit`].
fn is_hex_digit_exec(c: char) -> (r: bool)
    ensures
        r == is_hex_digit(c),
{
    ('0' <= c && c <= '9') || ('A' <= c && c <= 'F')
}

/// Executable twin of [`hex_digit_value`].
fn hex_digit_value_exec(c: char) -> (v: u8)
    requires
        is_hex_digit(c),
    ensures
        v == hex_digit_value(c),
{
    if '0' <= c && c <= '9' {
        (c as u32 - '0' as u32) as u8
    } else {
        (c as u32 - 'A' as u32 + 10) as u8
    }
}

/// The token for the word run `chars[from..to]`.
fn run_token_exec(chars: &Vec<char>, from: usize, to: usize) -> (t: Token)
    requires
        from < to <= chars@.len(),
    ensures
        t == run_token(chars@.subrange(from as int, to as int)),
{
    let len = to - from;
    if len == 3 && chars[from] == 'v' && chars[from + 1] == 'c' && chars[from + 2] == 'p' {
        Token::Vcp
    } else if len == 2 && is_hex_digit_exec(chars[from]) && is_hex_digit_exec(chars[from + 1]) {
        let hi = hex_digit_value_exec(chars[from]);
        let lo = hex_digit_value_exec(chars[from + 1]);
        Token::HexNumber(hi * 16 + lo)
    } else {
        Token::Unknown
    }
}

} // verus!
