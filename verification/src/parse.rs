//! Recursive-descent parser for capability strings.
//!
//! The grammar, top-down:
//!
//! ```text
//! capabilities := '(' group* ')'
//! group        := vcp-group | unknown-group
//! vcp-group    := 'vcp' '(' vcp-entry* ')'
//! vcp-entry    := byte [ '(' byte* ')' ]
//! unknown-group:= identifier '(' ... ')'
//! ```
//!
//! Only the `vcp` group is modelled; any other group is skipped up to the
//! first closing parenthesis.  That skip is deliberately not depth-aware,
//! which mirrors the established behaviour of this decoder: a non-`vcp`
//! group with its own nested parentheses ends at the first `)`.
//!
//! The whole grammar is also written out as specification functions over the
//! token sequence; [`parse`] promises that its result is exactly what those
//! functions say, so the outcome is a function of the source characters
//! alone.  The first grammar violation aborts the parse with a
//! [`ParseError`]; there is no partial result.

use vstd::prelude::*;

use crate::cap::{codes_view, Capabilities, CapabilitiesView, VcpCode, VcpCodeView};
use crate::token::{spec_tokens, tokenize, Token};

verus! {

/// Why a capability string was rejected.  Every malformed string yields one
/// of these; no input aborts the process.
#[derive(Clone, Debug, PartialEq, Eq)]
pub enum ParseError {
    /// The lexer met a character that can start no token; carries the
    /// offending text and its character offsets into the source string.
    InvalidToken { start: usize, end: usize, text: String },
    /// The parser required one specific token and found another.  Where a
    /// group was expected, `wanted` is `Token::Unknown`: a group opens with
    /// an identifier-class token or the `vcp` keyword.
    Expected { wanted: Token, found: Token },
    /// A token that is no hexadecimal byte stood where a VCP code or value
    /// byte was required.
    ExpectedValue { found: Token },
    /// The token sequence ended before the grammar was satisfied.
    EndOfFile,
}

/// Consuming one required token at position `i`: the position after it, or
/// the error the mismatch produces.
pub open spec fn spec_expect(toks: Seq<Token>, i: int, t: Token) -> Result<int, ParseError>
    recommends
        0 <= i,
{
    if i >= toks.len() {
        Err(ParseError::EndOfFile)
    } else if toks[i] == t {
        Ok(i + 1)
    } else {
        Err(ParseError::Expected { wanted: t, found: toks[i] })
    }
}

/// Consuming one required byte token at position `i`: the byte and the
/// position after it, or the error.
pub open spec fn spec_number(toks: Seq<Token>, i: int) -> Result<(u8, int), ParseError>
    recommends
        0 <= i,
{
    if i >= toks.len() {
        Err(ParseError::EndOfFile)
    } else {
        match toks[i] {
            Token::HexNumber(n) => Ok((n, i + 1)),
            t => Err(ParseError::ExpectedValue { found: t }),
        }
    }
}

/// The first position at or after `i` that holds `t`, or the end of the
/// token sequence.
pub open spec fn spec_skip_until(toks: Seq<Token>, i: int, t: Token) -> int
    decreases toks.len() - i,
        when 0 <= i <= toks.len()
{
    if i >= toks.len() {
        i
    } else if toks[i] == t {
        i
    } else {
        spec_skip_until(toks, i + 1, t)
    }
}

pub proof fn lemma_spec_skip_until(toks: Seq<Token>, i: int, t: Token)
    requires
        0 <= i <= toks.len(),
    ensures
        i <= spec_skip_until(toks, i, t) <= toks.len(),
        spec_skip_until(toks, i, t) < toks.len() ==> toks[spec_skip_until(toks, i, t)] == t,
    decreases toks.len() - i,
{
    if i < toks.len() && toks[i] != t {
        lemma_spec_skip_until(toks, i + 1, t);
    }
}

/// The value bytes of an entry's parenthesized list, from `i` up to but not
/// including the closing parenthesis.
pub open spec fn spec_values(toks: Seq<Token>, i: int) -> Result<(Seq<u8>, int), ParseError>
    decreases toks.len() - i,
        when 0 <= i <= toks.len()
{
    if i >= toks.len() {
        Err(ParseError::EndOfFile)
    } else if toks[i] == Token::RightParen {
        Ok((Seq::empty(), i))
    } else {
        match toks[i] {
            Token::HexNumber(n) => match spec_values(toks, i + 1) {
                Ok((vs, j)) => Ok((seq![n] + vs, j)),
                Err(e) => Err(e),
            },
            t => Err(ParseError::ExpectedValue { found: t }),
        }
    }
}

pub proof fn lemma_spec_values_bounds(toks: Seq<Token>, i: int)
    requires
        0 <= i <= toks.len(),
        spec_values(toks, i) is Ok,
    ensures
        i <= spec_values(toks, i)->Ok_0.1 < toks.len(),
        toks[spec_values(toks, i)->Ok_0.1] == Token::RightParen,
    decreases toks.len() - i,
{
    if i < toks.len() && toks[i] != Token::RightParen {
        lemma_spec_values_bounds(toks, i + 1);
    }
}

/// One `vcp-entry`: a mandatory code byte, optionally followed by a
/// parenthesized and possibly empty list of value bytes.
pub open spec fn spec_vcp_entry(toks: Seq<Token>, i: int) -> Result<
    (VcpCodeView, int),
    ParseError,
>
    recommends
        0 <= i <= toks.len(),
{
    match spec_number(toks, i) {
        Ok((code, j)) => {
            if j < toks.len() && toks[j] == Token::LeftParen {
                match spec_values(toks, j + 1) {
                    Ok((vs, k)) => match spec_expect(toks, k, Token::RightParen) {
                        Ok(m) => Ok((VcpCodeView { code, values: vs }, m)),
                        Err(e) => Err(e),
                    },
                    Err(e) => Err(e),
                }
            } else {
                Ok((VcpCodeView { code, values: Seq::empty() }, j))
            }
        },
        Err(e) => Err(e),
    }
}

pub proof fn lemma_spec_vcp_entry_bounds(toks: Seq<Token>, i: int)
    requires
        0 <= i <= toks.len(),
        spec_vcp_entry(toks, i) is Ok,
    ensures
        i < spec_vcp_entry(toks, i)->Ok_0.1 <= toks.len(),
{
    match spec_number(toks, i) {
        Ok((code, j)) => {
            if j < toks.len() && toks[j] == Token::LeftParen {
                if spec_values(toks, j + 1) is Ok {
                    lemma_spec_values_bounds(toks, j + 1);
                }
            }
        },
        Err(_) => {},
    }
}

/// The entry list of a `vcp` group, from `i` up to but not including the
/// group's closing parenthesis.
pub open spec fn spec_vcp_entries(toks: Seq<Token>, i: int) -> Result<
    (Seq<VcpCodeView>, int),
    ParseError,
>
    decreases toks.len() - i,
        when 0 <= i <= toks.len()
{
    if i >= toks.len() {
        Err(ParseError::EndOfFile)
    } else if toks[i] == Token::RightParen {
        Ok((Seq::empty(), i))
    } else {
        match spec_vcp_entry(toks, i) {
            Ok((entry, m)) => {
                proof {
                    lemma_spec_vcp_entry_bounds(toks, i);
                }
                match spec_vcp_entries(toks, m) {
                    Ok((rest, k)) => Ok((seq![entry] + rest, k)),
                    Err(e) => Err(e),
                }
            },
            Err(e) => Err(e),
        }
    }
}

pub proof fn lemma_spec_vcp_entries_bounds(toks: Seq<Token>, i: int)
    requires
        0 <= i <= toks.len(),
        spec_vcp_entries(toks, i) is Ok,
    ensures
        i <= spec_vcp_entries(toks, i)->Ok_0.1 < toks.len(),
        toks[spec_vcp_entries(toks, i)->Ok_0.1] == Token::RightParen,
    decreases toks.len() - i,
{
    if i < toks.len() && toks[i] != Token::RightParen {
        match spec_vcp_entry(toks, i) {
            Ok((entry, m)) => {
                lemma_spec_vcp_entry_bounds(toks, i);
                lemma_spec_vcp_entries_bounds(toks, m);
            },
            Err(_) => {},
        }
    }
}

/// A whole `vcp-group` after its keyword: `'(' vcp-entry* ')'`.
pub open spec fn spec_vcp_group(toks: Seq<Token>, i: int) -> Result<
    (Seq<VcpCodeView>, int),
    ParseError,
>
    recommends
        0 <= i <= toks.len(),
{
    match spec_expect(toks, i, Token::LeftParen) {
        Ok(j) => match spec_vcp_entries(toks, j) {
            Ok((entries, k)) => match spec_expect(toks, k, Token::RightParen) {
                Ok(m) => Ok((entries, m)),
                Err(e) => Err(e),
            },
            Err(e) => Err(e),
        },
        Err(e) => Err(e),
    }
}

pub proof fn lemma_spec_vcp_group_bounds(toks: Seq<Token>, i: int)
    requires
        0 <= i <= toks.len(),
        spec_vcp_group(toks, i) is Ok,
    ensures
        i < spec_vcp_group(toks, i)->Ok_0.1 <= toks.len(),
{
    match spec_expect(toks, i, Token::LeftParen) {
        Ok(j) => {
            if spec_vcp_entries(toks, j) is Ok {
                lemma_spec_vcp_entries_bounds(toks, j);
            }
        },
        Err(_) => {},
    }
}

/// The top-level group sequence from `i` up to but not including the outer
/// closing parenthesis.  `vcp` carries the entries of the last `vcp` group
/// seen so far; a later `vcp` group replaces an earlier one, and an unknown
/// group is skipped up to its first closing parenthesis.
pub open spec fn spec_groups(toks: Seq<Token>, i: int, vcp: Option<Seq<VcpCodeView>>) -> Result<
    (Option<Seq<VcpCodeView>>, int),
    ParseError,
>
    decreases toks.len() - i,
        when 0 <= i <= toks.len()
{
    if i >= toks.len() {
        Err(ParseError::EndOfFile)
    } else if toks[i] == Token::RightParen {
        Ok((vcp, i))
    } else {
        match toks[i] {
            Token::Vcp => match spec_vcp_group(toks, i + 1) {
                Ok((entries, m)) => {
                    proof {
                        lemma_spec_vcp_group_bounds(toks, i + 1);
                    }
                    spec_groups(toks, m, Some(entries))
                },
                Err(e) => Err(e),
            },
            Token::Unknown => match spec_expect(toks, i + 1, Token::LeftParen) {
                Ok(j) => {
                    let k = spec_skip_until(toks, j, Token::RightParen);
                    match spec_expect(toks, k, Token::RightParen) {
                        Ok(m) => {
                            proof {
                                lemma_spec_skip_until(toks, j, Token::RightParen);
                            }
                            spec_groups(toks, m, vcp)
                        },
                        Err(e) => Err(e),
                    }
                },
                Err(e) => Err(e),
            },
            t => Err(ParseError::Expected { wanted: Token::Unknown, found: t }),
        }
    }
}

pub proof fn lemma_spec_groups_bounds(toks: Seq<Token>, i: int, vcp: Option<Seq<VcpCodeView>>)
    requires
        0 <= i <= toks.len(),
        spec_groups(toks, i, vcp) is Ok,
    ensures
        i <= spec_groups(toks, i, vcp)->Ok_0.1 < toks.len(),
        toks[spec_groups(toks, i, vcp)->Ok_0.1] == Token::RightParen,
    decreases toks.len() - i,
{
    if i < toks.len() && toks[i] != Token::RightParen {
        match toks[i] {
            Token::Vcp => {
                match spec_vcp_group(toks, i + 1) {
                    Ok((entries, m)) => {
                        lemma_spec_vcp_group_bounds(toks, i + 1);
                        lemma_spec_groups_bounds(toks, m, Some(entries));
                    },
                    Err(_) => {},
                }
            },
            Token::Unknown => {
                match spec_expect(toks, i + 1, Token::LeftParen) {
                    Ok(j) => {
                        let k = spec_skip_until(toks, j, Token::RightParen);
                        lemma_spec_skip_until(toks, j, Token::RightParen);
                        match spec_expect(toks, k, Token::RightParen) {
                            Ok(m) => {
                                lemma_spec_groups_bounds(toks, m, vcp);
                            },
                            Err(_) => {},
                        }
                    },
                    Err(_) => {},
                }
            },
            _ => {},
        }
    }
}

/// The outcome of parsing a whole token sequence: the capability model, or
/// the first grammar violation.  Tokens after the outer closing parenthesis
/// are not inspected.
pub open spec fn spec_parse_tokens(toks: Seq<Token>) -> Result<CapabilitiesView, ParseError> {
    match spec_expect(toks, 0, Token::LeftParen) {
        Ok(j) => match spec_groups(toks, j, None) {
            Ok((vcp, k)) => match spec_expect(toks, k, Token::RightParen) {
                Ok(m) => Ok(CapabilitiesView { vcp }),
                Err(e) => Err(e),
            },
            Err(e) => Err(e),
        },
        Err(e) => Err(e),
    }
}

/// Everything [`parse`] promises of its result: lexing and parsing the
/// string's characters determine the returned model, or the returned error,
/// exactly.
pub open spec fn parse_post(s: Seq<char>, r: Result<Capabilities, ParseError>) -> bool {
    match spec_tokens(s) {
        Err(p) => r matches Err(e) && e matches ParseError::InvalidToken { start, end, text }
            && start as int == p && end as int == p + 1 && text@ == s.subrange(p, p + 1),
        Ok(toks) => match spec_parse_tokens(toks) {
            Ok(cv) => r matches Ok(c) && c@ == cv,
            Err(e) => r matches Err(err) && err == e,
        },
    }
}

/// Parsing is deterministic: two outcomes of [`parse`] for capability
/// strings with the same characters agree, and on an accepted string they
/// carry structurally equal capability models.
pub proof fn lemma_parse_deterministic(
    s: Seq<char>,
    r1: Result<Capabilities, ParseError>,
    r2: Result<Capabilities, ParseError>,
)
    requires
        parse_post(s, r1),
        parse_post(s, r2),
        r1 is Ok,
    ensures
        r1 matches Ok(c1) && r2 matches Ok(c2) && c1@ == c2@,
{
}

/// Cursor-based parser over a lexed token sequence.  The only state is the
/// cursor index; the token sequence itself is never changed.
struct CapabilitiesStringParser<'a> {
    tokens: &'a Vec<Token>,
    index: usize,
}

impl<'a> CapabilitiesStringParser<'a> {
    /// The parser's cursor never runs past the end of the token sequence.
    spec fn wf(&self) -> bool {
        self.index <= self.tokens@.len()
    }

    spec fn toks(&self) -> Seq<Token> {
        self.tokens@
    }

    fn new(tokens: &'a Vec<Token>) -> (p: CapabilitiesStringParser<'a>)
        ensures
            p.tokens == tokens,
            p.index == 0,
            p.wf(),
    {
        CapabilitiesStringParser { tokens, index: 0 }
    }

    /// Returns true if the next token is `token`.
    fn check(&self, token: Token) -> (r: bool)
        ensures
            r == (self.index < self.toks().len() && self.toks()[self.index as int] == token),
    {
        self.index < self.tokens.len() && self.tokens[self.index] == token
    }

    /// Returns the next token and consumes it, or fails at the end of the
    /// token sequence.
    fn next(&mut self) -> (r: Result<Token, ParseError>)
        requires
            old(self).wf(),
        ensures
            final(self).tokens == old(self).tokens,
            final(self).wf(),
            match r {
                Ok(t) => old(self).index < old(self).toks().len() && t == old(self).toks()[old(
                    self,
                 ).index as int] && final(self).index == old(self).index + 1,
                Err(e) => e == ParseError::EndOfFile && old(self).index >= old(
                    self,
                ).toks().len() && final(self).index == old(self).index,
            },
    {
        if self.index < self.tokens.len() {
            let t = self.tokens[self.index];
            self.index = self.index + 1;
            Ok(t)
        } else {
            Err(ParseError::EndOfFile)
        }
    }

    /// Consumes and expects `token`.  A mismatched token is still consumed;
    /// only at the end of the token sequence does the cursor stay put.
    fn expect(&mut self, token: Token) -> (r: Result<(), ParseError>)
        requires
            old(self).wf(),
        ensures
            final(self).tokens == old(self).tokens,
            final(self).wf(),
            match spec_expect(old(self).toks(), old(self).index as int, token) {
                Ok(j) => r is Ok && final(self).index == j,
                Err(e) => r matches Err(err) && err == e,
            },
            old(self).index < old(self).toks().len() ==> final(self).index == old(self).index
                + 1,
            old(self).index >= old(self).toks().len() ==> final(self).index == old(self).index,
    {
        match self.next() {
            Ok(t) => {
                if t == token {
                    Ok(())
                } else {
                    Err(ParseError::Expected { wanted: token, found: t })
                }
            },
            Err(e) => Err(e),
        }
    }

    /// Consumes the next token if it's `token`, and returns whether the
    /// token was consumed.
    fn eat(&mut self, token: Token) -> (r: bool)
        requires
            old(self).wf(),
        ensures
            final(self).tokens == old(self).tokens,
            final(self).wf(),
            r == (old(self).index < old(self).toks().len() && old(self).toks()[old(
                self,
            ).index as int] == token),
            r ==> final(self).index == old(self).index + 1,
            !r ==> final(self).index == old(self).index,
    {
        if self.index < self.tokens.len() && self.tokens[self.index] == token {
            self.index = self.index + 1;
            true
        } else {
            false
        }
    }

    /// Consumes tokens until the next token is `token` or the sequence
    /// ends.
    fn eat_until(&mut self, token: Token)
        requires
            old(self).wf(),
        ensures
            final(self).tokens == old(self).tokens,
            final(self).wf(),
            final(self).index == spec_skip_until(old(self).toks(), old(self).index as int, token),
    {
        let ghost t0 = self.toks();
        let ghost i0 = self.index as int;
        let ghost tref = self.tokens;
        while self.index < self.tokens.len()
            invariant
                self.tokens == tref,
                self.tokens@ == t0,
                self.index <= t0.len(),
                spec_skip_until(t0, i0, token) == spec_skip_until(t0, self.index as int, token),
                0 <= i0 <= self.index,
            ensures
                self.tokens@ == t0,
                spec_skip_until(t0, i0, token) == spec_skip_until(t0, self.index as int, token),
                self.index as int == t0.len() || t0[self.index as int] == token,
            decreases t0.len() - self.index,
        {
            if self.tokens[self.index] == token {
                break ;
            }
            self.index = self.index + 1;
        }
    }

    /// Consumes one byte token, or fails with the error a misplaced token
    /// or the end of the sequence produces.  A misplaced token is still
    /// consumed; only at the end of the token sequence does the cursor stay
    /// put.
    fn parse_number(&mut self) -> (r: Result<u8, ParseError>)
        requires
            old(self).wf(),
        ensures
            final(self).tokens == old(self).tokens,
            final(self).wf(),
            match spec_number(old(self).toks(), old(self).index as int) {
                Ok((n, j)) => r matches Ok(v) && v == n && final(self).index == j,
                Err(e) => r matches Err(err) && err == e,
            },
            old(self).index < old(self).toks().len() ==> final(self).index == old(self).index
                + 1,
            old(self).index >= old(self).toks().len() ==> final(self).index == old(self).index,
    {
        match self.next() {
            Ok(t) => match t {
                Token::HexNumber(n) => Ok(n),
                token => Err(ParseError::ExpectedValue { found: token }),
            },
            Err(e) => Err(e),
        }
    }

    /// Parses one `vcp-entry`: a code byte with its optional value list.
    #[verifier::loop_isolation(false)]
    fn parse_vcp_code(&mut self) -> (r: Result<VcpCode, ParseError>)
        requires
            old(self).wf(),
        ensures
            final(self).tokens == old(self).tokens,
            final(self).wf(),
            match spec_vcp_entry(old(self).toks(), old(self).index as int) {
                Ok((entry, m)) => r matches Ok(c) && c@ == entry && final(self).index == m,
                Err(e) => r matches Err(err) && err == e,
            },
    {
        let ghost t0 = self.toks();
        let code = match self.parse_number() {
            Ok(n) => n,
            Err(e) => {
                return Err(e);
            },
        };
        let mut values: Vec<u8> = Vec::new();
        if self.eat(Token::LeftParen) {
            let ghost j0 = self.index as int;
            proof {
                match spec_values(t0, j0) {
                    Ok((rest, k)) => {
                        assert(Seq::<u8>::empty() + rest =~= rest);
                    },
                    Err(_) => {},
                }
            }
            while !self.check(Token::RightParen)
                invariant
                    self.tokens == old(self).tokens,
                    self.tokens@ == t0,
                    self.wf(),
                    0 <= j0 <= self.index as int <= t0.len(),
                    spec_values(t0, j0) == match spec_values(t0, self.index as int) {
                        Ok((rest, k)) => Ok::<(Seq<u8>, int), ParseError>(
                            (values@ + rest, k),
                        ),
                        Err(e) => Err::<(Seq<u8>, int), ParseError>(e),
                    },
                decreases t0.len() - self.index,
            {
                let ghost vs0 = values@;
                let value = match self.parse_number() {
                    Ok(n) => n,
                    Err(e) => {
                        return Err(e);
                    },
                };
                values.push(value);
                proof {
                    lemma_prepend_values(vs0, value, spec_values(t0, self.index as int));
                }
            }
            let ghost kk = self.index as int;
            if let Err(e) = self.expect(Token::RightParen) {
                return Err(e);
            }
            proof {
                assert(spec_values(t0, kk) == Ok::<(Seq<u8>, int), ParseError>((Seq::empty(), kk)));
                assert(values@ + Seq::<u8>::empty() =~= values@);
            }
        }
        Ok(VcpCode { code, values })
    }

    /// Parses the body of a `vcp-group` after its keyword: the parenthesized
    /// entry list.
    #[verifier::loop_isolation(false)]
    fn parse_vcp(&mut self) -> (r: Result<Vec<VcpCode>, ParseError>)
        requires
            old(self).wf(),
        ensures
            final(self).tokens == old(self).tokens,
            final(self).wf(),
            match spec_vcp_group(old(self).toks(), old(self).index as int) {
                Ok((entries, m)) => r matches Ok(v) && codes_view(v@) == entries
                    && final(self).index == m,
                Err(e) => r matches Err(err) && err == e,
            },
    {
        let ghost t0 = self.toks();
        if let Err(e) = self.expect(Token::LeftParen) {
            return Err(e);
        }
        let ghost j0 = self.index as int;
        let mut vcp_codes: Vec<VcpCode> = Vec::new();
        proof {
            assert(codes_view(vcp_codes@) =~= Seq::<VcpCodeView>::empty());
            match spec_vcp_entries(t0, j0) {
                Ok((rest, k)) => {
                    assert(Seq::<VcpCodeView>::empty() + rest =~= rest);
                },
                Err(_) => {},
            }
        }
        while !self.check(Token::RightParen)
            invariant
                self.tokens == old(self).tokens,
                self.tokens@ == t0,
                self.wf(),
                0 <= j0 <= self.index as int <= t0.len(),
                spec_vcp_entries(t0, j0) == match spec_vcp_entries(t0, self.index as int) {
                    Ok((rest, k)) => Ok::<(Seq<VcpCodeView>, int), ParseError>(
                        (codes_view(vcp_codes@) + rest, k),
                    ),
                    Err(e) => Err::<(Seq<VcpCodeView>, int), ParseError>(e),
                },
            decreases t0.len() - self.index,
        {
            let ghost cs0 = vcp_codes@;
            let ghost i1 = self.index as int;
            let vcp_code = match self.parse_vcp_code() {
                Ok(c) => c,
                Err(e) => {
                    return Err(e);
                },
            };
            proof {
                lemma_spec_vcp_entry_bounds(t0, i1);
            }
            vcp_codes.push(vcp_code);
            proof {
                assert(codes_view(vcp_codes@) =~= codes_view(cs0).push(vcp_codes@.last()@));
                lemma_prepend_codes(
                    codes_view(cs0),
                    vcp_codes@.last()@,
                    spec_vcp_entries(t0, self.index as int),
                );
            }
        }
        let ghost kk = self.index as int;
        if let Err(e) = self.expect(Token::RightParen) {
            return Err(e);
        }
        proof {
            assert(spec_vcp_entries(t0, kk) == Ok::<(Seq<VcpCodeView>, int), ParseError>(
                (Seq::empty(), kk),
            ));
            assert(codes_view(vcp_codes@) + Seq::<VcpCodeView>::empty() =~= codes_view(
                vcp_codes@,
            ));
        }
        Ok(vcp_codes)
    }

    /// Parses a whole capability string's token sequence.
    #[verifier::loop_isolation(false)]
    fn parse(&mut self) -> (r: Result<Capabilities, ParseError>)
        requires
            old(self).wf(),
            old(self).index == 0,
        ensures
            match spec_parse_tokens(old(self).toks()) {
                Ok(cv) => r matches Ok(c) && c@ == cv,
                Err(e) => r matches Err(err) && err == e,
            },
    {
        let ghost t0 = self.toks();
        let mut capabilities = Capabilities { vcp: None };

        if let Err(e) = self.expect(Token::LeftParen) {
            return Err(e);
        }
        let ghost j0 = self.index as int;
        while !self.check(Token::RightParen)
            invariant
                self.tokens == old(self).tokens,
                self.tokens@ == t0,
                self.wf(),
                0 <= j0 <= self.index as int <= t0.len(),
                spec_groups(t0, j0, None) == spec_groups(
                    t0,
                    self.index as int,
                    capabilities@.vcp,
                ),
            decreases t0.len() - self.index,
        {
            let ghost i1 = self.index as int;
            let ghost acc = capabilities@.vcp;
            let t = match self.next() {
                Ok(t) => t,
                Err(e) => {
                    return Err(e);
                },
            };
            match t {
                Token::Vcp => {
                    let codes = match self.parse_vcp() {
                        Ok(v) => v,
                        Err(e) => {
                            return Err(e);
                        },
                    };
                    proof {
                        lemma_spec_vcp_group_bounds(t0, i1 + 1);
                    }
                    capabilities.vcp = Some(codes);
                },
                Token::Unknown => {
                    if let Err(e) = self.expect(Token::LeftParen) {
                        return Err(e);
                    }
                    self.eat_until(Token::RightParen);
                    proof {
                        lemma_spec_skip_until(t0, i1 + 2, Token::RightParen);
                    }
                    if let Err(e) = self.expect(Token::RightParen) {
                        return Err(e);
                    }
                },
                token => {
                    return Err(ParseError::Expected { wanted: Token::Unknown, found: token });
                },
            }
        }
        let ghost kk = self.index as int;
        if let Err(e) = self.expect(Token::RightParen) {
            return Err(e);
        }
        proof {
            assert(spec_groups(t0, kk, capabilities@.vcp) == Ok::<
                (Option<Seq<VcpCodeView>>, int),
                ParseError,
            >((capabilities@.vcp, kk)));
        }
        Ok(capabilities)
    }
}

/// Prepending one value byte commutes with accumulating it at the end of
/// the bytes already parsed.
proof fn lemma_prepend_values(done: Seq<u8>, v: u8, r: Result<(Seq<u8>, int), ParseError>)
    ensures
        (match r {
            Ok((rest, k)) => Ok::<(Seq<u8>, int), ParseError>((done + (seq![v] + rest), k)),
            Err(e) => Err::<(Seq<u8>, int), ParseError>(e),
        }) == (match r {
            Ok((rest, k)) => Ok::<(Seq<u8>, int), ParseError>((done.push(v) + rest, k)),
            Err(e) => Err::<(Seq<u8>, int), ParseError>(e),
        }),
{
    match r {
        Ok((rest, k)) => {
            assert(done + (seq![v] + rest) =~= done.push(v) + rest);
        },
        Err(_) => {},
    }
}

/// Prepending one entry commutes with accumulating it at the end of the
/// entries already parsed.
proof fn lemma_prepend_codes(
    done: Seq<VcpCodeView>,
    c: VcpCodeView,
    r: Result<(Seq<VcpCodeView>, int), ParseError>,
)
    ensures
        (match r {
            Ok((rest, k)) => Ok::<(Seq<VcpCodeView>, int), ParseError>(
                (done + (seq![c] + rest), k),
            ),
            Err(e) => Err::<(Seq<VcpCodeView>, int), ParseError>(e),
        }) == (match r {
            Ok((rest, k)) => Ok::<(Seq<VcpCodeView>, int), ParseError>((done.push(c) + rest, k)),
            Err(e) => Err::<(Seq<VcpCodeView>, int), ParseError>(e),
        }),
{
    match r {
        Ok((rest, k)) => {
            assert(done + (seq![c] + rest) =~= done.push(c) + rest);
        },
        Err(_) => {},
    }
}

/// Decodes a capability string into its capability model.
///
/// The string is lexed and then parsed by the grammar above; the result is
/// exactly what [`parse_post`] states: the model the specification functions
/// compute, or the error for the first lexical or grammatical violation.
pub fn parse(capabilities_string: &str) -> (r: Result<Capabilities, ParseError>)
    ensures
        parse_post(capabilities_string@, r),
{
    let tokens = match tokenize(capabilities_string) {
        Ok(tokens) => tokens,
        Err(p) => {
            let text = capabilities_string.substring_char(p, p + 1).to_owned();
            return Err(ParseError::InvalidToken { start: p, end: p + 1, text });
        },
    };
    let mut parser = CapabilitiesStringParser::new(&tokens);
    parser.parse()
}

} // verus!
