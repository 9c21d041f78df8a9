//! Tokenizer for the component-definition grammar.
//!
//! The token alphabet is small: identifiers, the punctuation `:` `;` `,`
//! `{` `}` and the arrow `->`.  Whitespace separates tokens and is otherwise
//! ignored.  Each token carries the character offset at which it starts, so
//! that later stages can report precise locations.

use vstd::prelude::*;

use crate::error::SyntaxError;

verus! {

/// The kind of a token, carrying the identifier text where there is any.
#[derive(Debug)]
pub enum TokenKind {
    Ident(Vec<char>),
    Colon,
    Semi,
    Comma,
    LBrace,
    RBrace,
    Arrow,
}

/// A token with the character offset at which it starts.
#[derive(Debug)]
pub struct Token {
    pub kind: TokenKind,
    pub pos: usize,
}

/// Mathematical model of a token kind.
pub enum SpecTokenKind {
    Ident(Seq<char>),
    Colon,
    Semi,
    Comma,
    LBrace,
    RBrace,
    Arrow,
}

/// Mathematical model of a token.
pub struct SpecToken {
    pub kind: SpecTokenKind,
    pub pos: int,
}

impl View for TokenKind {
    type V = SpecTokenKind;

    open spec fn view(&self) -> SpecTokenKind {
        match self {
            TokenKind::Ident(n) => SpecTokenKind::Ident(n@),
            TokenKind::Colon => SpecTokenKind::Colon,
            TokenKind::Semi => SpecTokenKind::Semi,
            TokenKind::Comma => SpecTokenKind::Comma,
            TokenKind::LBrace => SpecTokenKind::LBrace,
            TokenKind::RBrace => SpecTokenKind::RBrace,
            TokenKind::Arrow => SpecTokenKind::Arrow,
        }
    }
}

impl View for Token {
    type V = SpecToken;

    open spec fn view(&self) -> SpecToken {
        SpecToken { kind: self.kind@, pos: self.pos as int }
    }
}

/// The models of a sequence of tokens, element-wise.
pub open spec fn toks_view(ts: Seq<Token>) -> Seq<SpecToken> {
    ts.map_values(|t: Token| t@)
}

pub proof fn lemma_toks_view_push(ts: Seq<Token>, t: Token)
    ensures
        toks_view(ts.push(t)) =~= toks_view(ts).push(t@),
{
}

/// A character that separates tokens.
pub open spec fn spec_is_space(c: char) -> bool {
    c == ' ' || c == '\t' || c == '\n' || c == '\r'
}

/// A character that may start an identifier: an ASCII letter or `_`.
pub open spec fn spec_ident_start(c: char) -> bool {
    ('a' <= c && c <= 'z') || ('A' <= c && c <= 'Z') || c == '_'
}

/// A character that may continue an identifier: a starter or an ASCII digit.
pub open spec fn spec_ident_cont(c: char) -> bool {
    spec_ident_start(c) || ('0' <= c && c <= '9')
}

/// The single-character punctuation tokens.
pub open spec fn spec_classify(c: char) -> Option<SpecTokenKind> {
    if c == ':' {
        Some(SpecTokenKind::Colon)
    } else if c == ';' {
        Some(SpecTokenKind::Semi)
    } else if c == ',' {
        Some(SpecTokenKind::Comma)
    } else if c == '{' {
        Some(SpecTokenKind::LBrace)
    } else if c == '}' {
        Some(SpecTokenKind::RBrace)
    } else {
        None
    }
}

/// The first position at or after `i` whose character no longer continues an
/// identifier (the end of the identifier that is running at `i`).
pub open spec fn ident_end(s: Seq<char>, i: int) -> int
    decreases s.len() - i,
{
    if 0 <= i < s.len() && spec_ident_cont(s[i]) {
        ident_end(s, i + 1)
    } else {
        i
    }
}

pub proof fn lemma_ident_end_bounds(s: Seq<char>, i: int)
    requires
        0 <= i <= s.len(),
    ensures
        i <= ident_end(s, i) <= s.len(),
    decreases s.len() - i,
{
    if i < s.len() && spec_ident_cont(s[i]) {
        lemma_ident_end_bounds(s, i + 1);
    }
}

/// What tokenizing the text from position `i` onward yields: the tokens, or
/// the position of the first character that fits no token.
pub open spec fn spec_tokenize_from(s: Seq<char>, i: int) -> Result<Seq<SpecToken>, int>
    decreases s.len() - i,
    via spec_tokenize_from_dec
{
    if !(0 <= i < s.len()) {
        Ok(Seq::empty())
    } else if spec_is_space(s[i]) {
        spec_tokenize_from(s, i + 1)
    } else if spec_ident_start(s[i]) {
        let j = ident_end(s, i + 1);
        match spec_tokenize_from(s, j) {
            Ok(rest) => Ok(
                seq![SpecToken { kind: SpecTokenKind::Ident(s.subrange(i, j)), pos: i }] + rest,
            ),
            Err(p) => Err(p),
        }
    } else if s[i] == '-' {
        if i + 1 < s.len() && s[i + 1] == '>' {
            match spec_tokenize_from(s, i + 2) {
                Ok(rest) => Ok(seq![SpecToken { kind: SpecTokenKind::Arrow, pos: i }] + rest),
                Err(p) => Err(p),
            }
        } else {
            Err(i)
        }
    } else {
        match spec_classify(s[i]) {
            Some(k) => match spec_tokenize_from(s, i + 1) {
                Ok(rest) => Ok(seq![SpecToken { kind: k, pos: i }] + rest),
                Err(p) => Err(p),
            },
            None => Err(i),
        }
    }
}

#[via_fn]
proof fn spec_tokenize_from_dec(s: Seq<char>, i: int) {
    if 0 <= i < s.len() && !spec_is_space(s[i]) && spec_ident_start(s[i]) {
        lemma_ident_end_bounds(s, i + 1);
    }
}

/// What tokenizing the whole text yields.
pub open spec fn spec_tokenize(s: Seq<char>) -> Result<Seq<SpecToken>, int> {
    spec_tokenize_from(s, 0)
}

/// Prefixing tokens onto the outcome of tokenizing a remainder.
pub open spec fn spec_tok_cat(prefix: Seq<SpecToken>, r: Result<Seq<SpecToken>, int>) -> Result<
    Seq<SpecToken>,
    int,
> {
    match r {
        Ok(rest) => Ok(prefix + rest),
        Err(p) => Err(p),
    }
}

pub fn is_space(c: char) -> (r: bool)
    ensures
        r == spec_is_space(c),
{
    c == ' ' || c == '\t' || c == '\n' || c == '\r'
}

pub fn ident_start(c: char) -> (r: bool)
    ensures
        r == spec_ident_start(c),
{
    ('a' <= c && c <= 'z') || ('A' <= c && c <= 'Z') || c == '_'
}

pub fn ident_cont(c: char) -> (r: bool)
    ensures
        r == spec_ident_cont(c),
{
    ident_start(c) || ('0' <= c && c <= '9')
}

fn classify(c: char) -> (r: Option<TokenKind>)
    ensures
        match r {
            Some(k) => spec_classify(c) == Some(k@),
            None => spec_classify(c) is None,
        },
{
    if c == ':' {
        Some(TokenKind::Colon)
    } else if c == ';' {
        Some(TokenKind::Semi)
    } else if c == ',' {
        Some(TokenKind::Comma)
    } else if c == '{' {
        Some(TokenKind::LBrace)
    } else if c == '}' {
        Some(TokenKind::RBrace)
    } else {
        None
    }
}

/// Scans to the end of the identifier that is running at `start`.
fn scan_ident(s: &Vec<char>, start: usize) -> (j: usize)
    requires
        start <= s@.len(),
    ensures
        j == ident_end(s@, start as int),
        start <= j <= s@.len(),
{
    let mut j: usize = start;
    while j < s.len() && ident_cont(s[j])
        invariant
            start <= j <= s@.len(),
            ident_end(s@, start as int) == ident_end(s@, j as int),
        decreases s@.len() - j,
    {
        j += 1;
    }
    j
}

/// Copies the characters of `s` between `i` and `j`.
fn sub_chars(s: &Vec<char>, i: usize, j: usize) -> (r: Vec<char>)
    requires
        i <= j <= s@.len(),
    ensures
        r@ == s@.subrange(i as int, j as int),
{
    let mut r: Vec<char> = Vec::new();
    let mut k: usize = i;
    while k < j
        invariant
            i <= k <= j <= s@.len(),
            r@ =~= s@.subrange(i as int, k as int),
        decreases j - k,
    {
        r.push(s[k]);
        k += 1;
        proof {
            assert(r@ =~= s@.subrange(i as int, k as int));
        }
    }
    proof {
        assert(r@ =~= s@.subrange(i as int, j as int));
    }
    r
}

/// Turns schema source text into its token sequence, or reports the position
/// of the first character that fits no token.
pub fn tokenize(s: &Vec<char>) -> (r: Result<Vec<Token>, SyntaxError>)
    ensures
        match r {
            Ok(ts) => spec_tokenize(s@) == Ok::<Seq<SpecToken>, int>(toks_view(ts@)),
            Err(e) => spec_tokenize(s@) == Err::<Seq<SpecToken>, int>(e.pos as int),
        },
{
    let mut acc: Vec<Token> = Vec::new();
    let mut i: usize = 0;
    loop
        invariant
            i <= s@.len(),
            spec_tokenize(s@) == spec_tok_cat(toks_view(acc@), spec_tokenize_from(s@, i as int)),
        decreases s@.len() - i,
    {
        if i >= s.len() {
            proof {
                assert(toks_view(acc@) + Seq::<SpecToken>::empty() =~= toks_view(acc@));
            }
            return Ok(acc);
        }
        let c = s[i];
        if is_space(c) {
            i += 1;
        } else if ident_start(c) {
            let j = scan_ident(s, i + 1);
            let name = sub_chars(s, i, j);
            let t = Token { kind: TokenKind::Ident(name), pos: i };
            proof {
                lemma_toks_view_push(acc@, t);
                assert(match spec_tokenize_from(s@, j as int) {
                    Ok(rest) => {
                        (toks_view(acc@) + (seq![t@] + rest)) =~= (toks_view(acc@).push(t@) + rest)
                    },
                    Err(_) => true,
                });
            }
            acc.push(t);
            i = j;
        } else if c == '-' {
            if i + 1 < s.len() && s[i + 1] == '>' {
                let t = Token { kind: TokenKind::Arrow, pos: i };
                proof {
                    lemma_toks_view_push(acc@, t);
                    assert(match spec_tokenize_from(s@, i + 2) {
                        Ok(rest) => {
                            (toks_view(acc@) + (seq![t@] + rest)) =~= (toks_view(acc@).push(t@)
                                + rest)
                        },
                        Err(_) => true,
                    });
                }
                acc.push(t);
                i += 2;
            } else {
                return Err(SyntaxError { pos: i });
            }
        } else {
            match classify(c) {
                Some(k) => {
                    let t = Token { kind: k, pos: i };
                    proof {
                        lemma_toks_view_push(acc@, t);
                        assert(match spec_tokenize_from(s@, i + 1) {
                            Ok(rest) => {
                                (toks_view(acc@) + (seq![t@] + rest)) =~= (toks_view(acc@).push(t@)
                                    + rest)
                            },
                            Err(_) => true,
                        });
                    }
                    acc.push(t);
                    i += 1;
                },
                None => {
                    return Err(SyntaxError { pos: i });
                },
            }
        }
    }
}

} // verus!
