//! Recursive-descent parser for the component-definition grammar.
//!
//! ```text
//! Component   := "Name" ":" Ident ";" Inputs ";" Outputs ";" Calls ";"
//! Inputs      := "Inputs" ":" "{" (Ident "->" InputType ",")* "}"
//! InputType   := "generic" Ident | Ident
//! Outputs     := "Outputs" ":" "{" (Ident "->" OutputType ",")* "}"
//! OutputType  := "using" Ident | Ident
//! Calls       := "Calls" ":" "{" (Ident ":" CallBody ";")* "}"
//! CallBody    := "{" "Takes" ":" Set ";" "Observes" ":" Set ";" "Writes" ":" Set ";" "}"
//! Set         := "{" (Ident ",")* "}"
//! ```
//!
//! Lists accept their separator as a trailing separator or not at all before
//! the closing brace.  Parsing is single-pass with one token of lookahead.
//! Duplicate keys inside one mapping or set are rejected during parsing, at
//! the first duplicate, with the location of both occurrences.
//!
//! The grammar's meaning is written once, as spec functions, and each parsing
//! function is proved to return exactly what the spec functions say.

use vstd::prelude::*;

use crate::error::{
    CompileError, DuplicateDeclarationError, ParseError, SpecCompileError, SpecDuplicate,
    SpecParseError, SyntaxError, spec_parse_to_compile,
};
use crate::model::{
    AllCallsBody, CallBody, ComponentDefinition, ParseNamed, SpecCall, SpecComponent,
    copy_name, distinct_names, lemma_distinct_push, lemma_map_lookup_none,
    lemma_names_view_push, lemma_pairs_view_push, map_keys, map_lookup, name_eq, names_view,
    pairs_view, InputBody, InputType, OutputBody, OutputType, ParseMapOf, ParseSetOf,
    SpecInputType, SpecOutputType,
};
use crate::validate::spec_validate;
use crate::token::{toks_view, SpecToken, SpecTokenKind, Token, TokenKind};

verus! {

// ---------------------------------------------------------------------------
// Positions and primitive token expectations
// ---------------------------------------------------------------------------

/// The character offset reported for the token at `i`: the token's own
/// offset, or the last token's offset when the input ended too early.
pub open spec fn tok_pos(ts: Seq<SpecToken>, i: int) -> int {
    if 0 <= i < ts.len() {
        ts[i].pos
    } else if ts.len() > 0 {
        ts[ts.len() - 1].pos
    } else {
        0
    }
}

/// Consuming one expected punctuation token.
pub open spec fn spec_expect(ts: Seq<SpecToken>, i: int, k: SpecTokenKind) -> Result<
    int,
    SpecParseError,
> {
    if 0 <= i < ts.len() && ts[i].kind == k {
        Ok(i + 1)
    } else {
        Err(SpecParseError::Syntax(tok_pos(ts, i)))
    }
}

/// Consuming one expected keyword (an identifier with fixed text).
pub open spec fn spec_expect_kw(ts: Seq<SpecToken>, i: int, kw: Seq<char>) -> Result<
    int,
    SpecParseError,
> {
    if 0 <= i < ts.len() && ts[i].kind == SpecTokenKind::Ident(kw) {
        Ok(i + 1)
    } else {
        Err(SpecParseError::Syntax(tok_pos(ts, i)))
    }
}

/// Consuming one identifier, whatever its text.
pub open spec fn spec_parse_ident(ts: Seq<SpecToken>, i: int) -> Result<
    (Seq<char>, int),
    SpecParseError,
> {
    if 0 <= i < ts.len() {
        match ts[i].kind {
            SpecTokenKind::Ident(n) => Ok((n, i + 1)),
            _ => Err(SpecParseError::Syntax(ts[i].pos)),
        }
    } else {
        Err(SpecParseError::Syntax(tok_pos(ts, i)))
    }
}

/// Prefixing already-parsed items onto the outcome of parsing a remainder.
pub open spec fn cat_parsed<T>(
    prefix: Seq<T>,
    r: Result<(Seq<T>, int), SpecParseError>,
) -> Result<(Seq<T>, int), SpecParseError> {
    match r {
        Ok((rest, j)) => Ok((prefix + rest, j)),
        Err(e) => Err(e),
    }
}

// ---------------------------------------------------------------------------
// Sets of identifiers
// ---------------------------------------------------------------------------

/// The items of a set, parsed from just after its opening brace.  `seen`
/// carries each name already taken, with the offset of its first occurrence,
/// so that a duplicate is rejected the moment it is read.
pub open spec fn spec_parse_set_items(
    ts: Seq<SpecToken>,
    i: int,
    seen: Seq<(Seq<char>, int)>,
) -> Result<(Seq<Seq<char>>, int), SpecParseError>
    decreases ts.len() - i,
{
    if !(0 <= i < ts.len()) {
        Err(SpecParseError::Syntax(tok_pos(ts, i)))
    } else {
        match ts[i].kind {
            SpecTokenKind::RBrace => Ok((Seq::empty(), i + 1)),
            SpecTokenKind::Ident(name) => match map_lookup(seen, name) {
                Some(first) => Err(
                    SpecParseError::Duplicate(
                        SpecDuplicate { name, first_pos: first, dup_pos: ts[i].pos },
                    ),
                ),
                None => {
                    let seen2 = seen.push((name, ts[i].pos));
                    if i + 1 < ts.len() && ts[i + 1].kind == SpecTokenKind::Comma {
                        match spec_parse_set_items(ts, i + 2, seen2) {
                            Ok((rest, j)) => Ok((seq![name] + rest, j)),
                            Err(e) => Err(e),
                        }
                    } else if i + 1 < ts.len() && ts[i + 1].kind == SpecTokenKind::RBrace {
                        Ok((seq![name], i + 2))
                    } else {
                        Err(SpecParseError::Syntax(tok_pos(ts, i + 1)))
                    }
                },
            },
            _ => Err(SpecParseError::Syntax(ts[i].pos)),
        }
    }
}

/// A braced set of identifiers.
pub open spec fn spec_parse_set(ts: Seq<SpecToken>, i: int) -> Result<
    (Seq<Seq<char>>, int),
    SpecParseError,
> {
    match spec_expect(ts, i, SpecTokenKind::LBrace) {
        Ok(i1) => spec_parse_set_items(ts, i1, Seq::empty()),
        Err(e) => Err(e),
    }
}

// ---------------------------------------------------------------------------
// Executable counterparts
// ---------------------------------------------------------------------------

/// The models of the running duplicate-tracking list, element-wise.
pub open spec fn seen_view(s: Seq<(Vec<char>, usize)>) -> Seq<(Seq<char>, int)> {
    s.map_values(|p: (Vec<char>, usize)| (p.0@, p.1 as int))
}

pub proof fn lemma_seen_view_push(s: Seq<(Vec<char>, usize)>, p: (Vec<char>, usize))
    ensures
        seen_view(s.push(p)) =~= seen_view(s).push((p.0@, p.1 as int)),
{
}

/// The offset reported when the input ends too early.
fn eof_pos(toks: &Vec<Token>) -> (r: usize)
    ensures
        forall|i: int|
            i < 0 || i >= toks@.len() ==> tok_pos(toks_view(toks@), i) == r as int,
{
    if toks.len() > 0 {
        let t = &toks[toks.len() - 1];
        t.pos
    } else {
        0
    }
}

/// Decides whether two punctuation kinds coincide (`want` is never an
/// identifier).
fn punct_matches(k: &TokenKind, want: &TokenKind) -> (r: bool)
    ensures
        r <==> (k@ == want@ && !(want@ is Ident)),
{
    match (k, want) {
        (TokenKind::Colon, TokenKind::Colon) => true,
        (TokenKind::Semi, TokenKind::Semi) => true,
        (TokenKind::Comma, TokenKind::Comma) => true,
        (TokenKind::LBrace, TokenKind::LBrace) => true,
        (TokenKind::RBrace, TokenKind::RBrace) => true,
        (TokenKind::Arrow, TokenKind::Arrow) => true,
        _ => false,
    }
}

/// Consumes one expected punctuation token.
fn expect(toks: &Vec<Token>, i: usize, want: TokenKind) -> (r: Result<usize, ParseError>)
    requires
        !(want@ is Ident),
    ensures
        match r {
            Ok(j) => spec_expect(toks_view(toks@), i as int, want@) == Ok::<int, SpecParseError>(
                j as int,
            ) && j == i + 1 && i < toks@.len(),
            Err(e) => spec_expect(toks_view(toks@), i as int, want@) == Err::<
                int,
                SpecParseError,
            >(e@),
        },
{
    if i < toks.len() {
        let t = &toks[i];
        if punct_matches(&t.kind, &want) {
            Ok(i + 1)
        } else {
            Err(ParseError::Syntax(SyntaxError { pos: t.pos }))
        }
    } else {
        Err(ParseError::Syntax(SyntaxError { pos: eof_pos(toks) }))
    }
}

/// Consumes one expected keyword.
fn expect_kw(toks: &Vec<Token>, i: usize, kw: &Vec<char>) -> (r: Result<usize, ParseError>)
    ensures
        match r {
            Ok(j) => spec_expect_kw(toks_view(toks@), i as int, kw@) == Ok::<int, SpecParseError>(
                j as int,
            ) && j == i + 1 && i < toks@.len(),
            Err(e) => spec_expect_kw(toks_view(toks@), i as int, kw@) == Err::<
                int,
                SpecParseError,
            >(e@),
        },
{
    if i < toks.len() {
        let t = &toks[i];
        match &t.kind {
            TokenKind::Ident(n) => {
                if name_eq(n, kw) {
                    Ok(i + 1)
                } else {
                    Err(ParseError::Syntax(SyntaxError { pos: t.pos }))
                }
            },
            _ => Err(ParseError::Syntax(SyntaxError { pos: t.pos })),
        }
    } else {
        Err(ParseError::Syntax(SyntaxError { pos: eof_pos(toks) }))
    }
}

/// Consumes one identifier, whatever its text.
fn parse_ident(toks: &Vec<Token>, i: usize) -> (r: Result<(Vec<char>, usize), ParseError>)
    ensures
        match r {
            Ok((name, j)) => spec_parse_ident(toks_view(toks@), i as int) == Ok::<
                (Seq<char>, int),
                SpecParseError,
            >((name@, j as int)) && j == i + 1 && i < toks@.len(),
            Err(e) => spec_parse_ident(toks_view(toks@), i as int) == Err::<
                (Seq<char>, int),
                SpecParseError,
            >(e@),
        },
{
    if i < toks.len() {
        let t = &toks[i];
        match &t.kind {
            TokenKind::Ident(n) => Ok((copy_name(n), i + 1)),
            _ => Err(ParseError::Syntax(SyntaxError { pos: t.pos })),
        }
    } else {
        Err(ParseError::Syntax(SyntaxError { pos: eof_pos(toks) }))
    }
}

/// Finds a name in the running duplicate-tracking list, yielding the offset
/// of its first occurrence.
fn seen_get(seen: &Vec<(Vec<char>, usize)>, name: &Vec<char>) -> (r: Option<usize>)
    ensures
        match r {
            Some(p) => map_lookup(seen_view(seen@), name@) == Some(p as int),
            None => map_lookup(seen_view(seen@), name@) is None,
        },
{
    let ghost sv = seen_view(seen@);
    proof {
        assert(sv.skip(0) =~= sv);
    }
    let mut k: usize = 0;
    while k < seen.len()
        invariant
            k <= seen@.len(),
            sv == seen_view(seen@),
            map_lookup(sv, name@) == map_lookup(sv.skip(k as int), name@),
        decreases seen@.len() - k,
    {
        let p = &seen[k];
        if name_eq(&p.0, name) {
            proof {
                assert(sv.skip(k as int)[0] == (p.0@, p.1 as int));
            }
            return Some(p.1);
        }
        proof {
            assert(sv.skip(k as int)[0] == (p.0@, p.1 as int));
            assert(sv.skip(k as int).skip(1) =~= sv.skip(k as int + 1));
        }
        k += 1;
    }
    proof {
        assert(sv.skip(k as int) =~= Seq::<(Seq<char>, int)>::empty());
    }
    None
}

/// Parses the items of a braced set of identifiers, from just after the
/// opening brace.
fn parse_set_items(toks: &Vec<Token>, start: usize) -> (r: Result<(ParseSetOf, usize), ParseError>)
    requires
        start <= toks@.len(),
    ensures
        match r {
            Ok((v, j)) => spec_parse_set_items(toks_view(toks@), start as int, Seq::empty())
                == Ok::<(Seq<Seq<char>>, int), SpecParseError>((v@, j as int)) && start < j
                <= toks@.len(),
            Err(e) => spec_parse_set_items(toks_view(toks@), start as int, Seq::empty()) == Err::<
                (Seq<Seq<char>>, int),
                SpecParseError,
            >(e@),
        },
{
    let ghost ts = toks_view(toks@);
    let mut out: Vec<Vec<char>> = Vec::new();
    let mut seen: Vec<(Vec<char>, usize)> = Vec::new();
    let mut cur: usize = start;
    proof {
        assert(names_view(out@) =~= Seq::<Seq<char>>::empty());
        assert(seen_view(seen@) =~= Seq::<(Seq<char>, int)>::empty());
        assert(match spec_parse_set_items(ts, start as int, seen_view(seen@)) {
            Ok((rest, _)) => names_view(out@) + rest =~= rest,
            Err(_) => true,
        });
    }
    loop
        invariant
            ts == toks_view(toks@),
            start <= cur <= toks@.len(),
            cat_parsed(names_view(out@), spec_parse_set_items(ts, cur as int, seen_view(seen@)))
                == spec_parse_set_items(ts, start as int, Seq::<(Seq<char>, int)>::empty()),
        decreases toks@.len() - cur,
    {
        if cur >= toks.len() {
            return Err(ParseError::Syntax(SyntaxError { pos: eof_pos(toks) }));
        }
        let t = &toks[cur];
        match &t.kind {
            TokenKind::RBrace => {
                proof {
                    assert(names_view(out@) + Seq::<Seq<char>>::empty() =~= names_view(out@));
                }
                return Ok((ParseSetOf { set: out }, cur + 1));
            },
            TokenKind::Ident(n) => {
                match seen_get(&seen, n) {
                    Some(first) => {
                        return Err(
                            ParseError::Duplicate(
                                DuplicateDeclarationError {
                                    name: copy_name(n),
                                    first_pos: first,
                                    dup_pos: t.pos,
                                },
                            ),
                        );
                    },
                    None => {},
                }
                let name = copy_name(n);
                let entry = (copy_name(n), t.pos);
                proof {
                    lemma_seen_view_push(seen@, entry);
                }
                seen.push(entry);
                if cur + 1 < toks.len() {
                    let t2 = &toks[cur + 1];
                    match &t2.kind {
                        TokenKind::Comma => {
                            proof {
                                lemma_names_view_push(out@, name);
                                assert(match spec_parse_set_items(
                                    ts,
                                    cur + 2,
                                    seen_view(seen@),
                                ) {
                                    Ok((rest, _)) => {
                                        names_view(out@) + (seq![n@] + rest) =~= names_view(
                                            out@,
                                        ).push(n@) + rest
                                    },
                                    Err(_) => true,
                                });
                            }
                            out.push(name);
                            cur += 2;
                        },
                        TokenKind::RBrace => {
                            proof {
                                lemma_names_view_push(out@, name);
                                assert(names_view(out@) + seq![n@] =~= names_view(out@).push(n@));
                            }
                            out.push(name);
                            return Ok((ParseSetOf { set: out }, cur + 2));
                        },
                        _ => {
                            return Err(ParseError::Syntax(SyntaxError { pos: t2.pos }));
                        },
                    }
                } else {
                    return Err(ParseError::Syntax(SyntaxError { pos: eof_pos(toks) }));
                }
            },
            _ => {
                return Err(ParseError::Syntax(SyntaxError { pos: t.pos }));
            },
        }
    }
}

// ---------------------------------------------------------------------------
// Keywords
// ---------------------------------------------------------------------------

pub open spec fn kw_name() -> Seq<char> {
    seq!['N', 'a', 'm', 'e']
}

pub open spec fn kw_inputs() -> Seq<char> {
    seq!['I', 'n', 'p', 'u', 't', 's']
}

pub open spec fn kw_outputs() -> Seq<char> {
    seq!['O', 'u', 't', 'p', 'u', 't', 's']
}

pub open spec fn kw_calls() -> Seq<char> {
    seq!['C', 'a', 'l', 'l', 's']
}

pub open spec fn kw_takes() -> Seq<char> {
    seq!['T', 'a', 'k', 'e', 's']
}

pub open spec fn kw_observes() -> Seq<char> {
    seq!['O', 'b', 's', 'e', 'r', 'v', 'e', 's']
}

pub open spec fn kw_writes() -> Seq<char> {
    seq!['W', 'r', 'i', 't', 'e', 's']
}

pub open spec fn kw_generic() -> Seq<char> {
    seq!['g', 'e', 'n', 'e', 'r', 'i', 'c']
}

pub open spec fn kw_using() -> Seq<char> {
    seq!['u', 's', 'i', 'n', 'g']
}

fn kw_name_vec() -> (r: Vec<char>)
    ensures
        r@ == kw_name(),
{
    let v: Vec<char> = vec!['N', 'a', 'm', 'e'];
    proof {
        assert(v@ =~= kw_name());
    }
    v
}

fn kw_inputs_vec() -> (r: Vec<char>)
    ensures
        r@ == kw_inputs(),
{
    let v: Vec<char> = vec!['I', 'n', 'p', 'u', 't', 's'];
    proof {
        assert(v@ =~= kw_inputs());
    }
    v
}

fn kw_outputs_vec() -> (r: Vec<char>)
    ensures
        r@ == kw_outputs(),
{
    let v: Vec<char> = vec!['O', 'u', 't', 'p', 'u', 't', 's'];
    proof {
        assert(v@ =~= kw_outputs());
    }
    v
}

fn kw_calls_vec() -> (r: Vec<char>)
    ensures
        r@ == kw_calls(),
{
    let v: Vec<char> = vec!['C', 'a', 'l', 'l', 's'];
    proof {
        assert(v@ =~= kw_calls());
    }
    v
}

fn kw_takes_vec() -> (r: Vec<char>)
    ensures
        r@ == kw_takes(),
{
    let v: Vec<char> = vec!['T', 'a', 'k', 'e', 's'];
    proof {
        assert(v@ =~= kw_takes());
    }
    v
}

fn kw_observes_vec() -> (r: Vec<char>)
    ensures
        r@ == kw_observes(),
{
    let v: Vec<char> = vec!['O', 'b', 's', 'e', 'r', 'v', 'e', 's'];
    proof {
        assert(v@ =~= kw_observes());
    }
    v
}

fn kw_writes_vec() -> (r: Vec<char>)
    ensures
        r@ == kw_writes(),
{
    let v: Vec<char> = vec!['W', 'r', 'i', 't', 'e', 's'];
    proof {
        assert(v@ =~= kw_writes());
    }
    v
}

fn kw_generic_vec() -> (r: Vec<char>)
    ensures
        r@ == kw_generic(),
{
    let v: Vec<char> = vec!['g', 'e', 'n', 'e', 'r', 'i', 'c'];
    proof {
        assert(v@ =~= kw_generic());
    }
    v
}

fn kw_using_vec() -> (r: Vec<char>)
    ensures
        r@ == kw_using(),
{
    let v: Vec<char> = vec!['u', 's', 'i', 'n', 'g'];
    proof {
        assert(v@ =~= kw_using());
    }
    v
}

// ---------------------------------------------------------------------------
// Port types
// ---------------------------------------------------------------------------

/// An input type: `generic` followed by a placeholder name, or a concrete
/// type reference.
pub open spec fn spec_parse_input_type(ts: Seq<SpecToken>, i: int) -> Result<
    (SpecInputType, int),
    SpecParseError,
> {
    match spec_parse_ident(ts, i) {
        Ok((n, i1)) => {
            if n == kw_generic() {
                match spec_parse_ident(ts, i1) {
                    Ok((g, i2)) => Ok((SpecInputType::Generic(g), i2)),
                    Err(e) => Err(e),
                }
            } else {
                Ok((SpecInputType::Concrete(n), i1))
            }
        },
        Err(e) => Err(e),
    }
}

/// An output type: `using` followed by a capability name, or a concrete type
/// reference.
pub open spec fn spec_parse_output_type(ts: Seq<SpecToken>, i: int) -> Result<
    (SpecOutputType, int),
    SpecParseError,
> {
    match spec_parse_ident(ts, i) {
        Ok((n, i1)) => {
            if n == kw_using() {
                match spec_parse_ident(ts, i1) {
                    Ok((g, i2)) => Ok((SpecOutputType::FromTrait(g), i2)),
                    Err(e) => Err(e),
                }
            } else {
                Ok((SpecOutputType::Concrete(n), i1))
            }
        },
        Err(e) => Err(e),
    }
}

impl InputType {
    /// Parses one input type.
    pub fn parse(toks: &Vec<Token>, i: usize) -> (r: Result<(InputType, usize), ParseError>)
        ensures
            match r {
                Ok((ty, j)) => spec_parse_input_type(toks_view(toks@), i as int) == Ok::<
                    (SpecInputType, int),
                    SpecParseError,
                >((ty@, j as int)) && i < j <= toks@.len(),
                Err(e) => spec_parse_input_type(toks_view(toks@), i as int) == Err::<
                    (SpecInputType, int),
                    SpecParseError,
                >(e@),
            },
    {
        match parse_ident(toks, i) {
            Ok((n, i1)) => {
                let generic_kw = kw_generic_vec();
                if name_eq(&n, &generic_kw) {
                    match parse_ident(toks, i1) {
                        Ok((g, i2)) => Ok((InputType::Generic(g), i2)),
                        Err(e) => Err(e),
                    }
                } else {
                    Ok((InputType::Concrete(n), i1))
                }
            },
            Err(e) => Err(e),
        }
    }
}

impl OutputType {
    /// Parses one output type.
    pub fn parse(toks: &Vec<Token>, i: usize) -> (r: Result<(OutputType, usize), ParseError>)
        ensures
            match r {
                Ok((ty, j)) => spec_parse_output_type(toks_view(toks@), i as int) == Ok::<
                    (SpecOutputType, int),
                    SpecParseError,
                >((ty@, j as int)) && i < j <= toks@.len(),
                Err(e) => spec_parse_output_type(toks_view(toks@), i as int) == Err::<
                    (SpecOutputType, int),
                    SpecParseError,
                >(e@),
            },
    {
        match parse_ident(toks, i) {
            Ok((n, i1)) => {
                let using_kw = kw_using_vec();
                if name_eq(&n, &using_kw) {
                    match parse_ident(toks, i1) {
                        Ok((g, i2)) => Ok((OutputType::FromTrait(g), i2)),
                        Err(e) => Err(e),
                    }
                } else {
                    Ok((OutputType::Concrete(n), i1))
                }
            },
            Err(e) => Err(e),
        }
    }
}

// ---------------------------------------------------------------------------
// Mappings `name -> type`
// ---------------------------------------------------------------------------

/// The entries of the inputs mapping, parsed from just after its opening
/// brace, rejecting a repeated key the moment it is read.
pub open spec fn spec_parse_input_entries(
    ts: Seq<SpecToken>,
    i: int,
    seen: Seq<(Seq<char>, int)>,
) -> Result<(Seq<(Seq<char>, SpecInputType)>, int), SpecParseError>
    decreases ts.len() - i,
{
    if !(0 <= i < ts.len()) {
        Err(SpecParseError::Syntax(tok_pos(ts, i)))
    } else {
        match ts[i].kind {
            SpecTokenKind::RBrace => Ok((Seq::empty(), i + 1)),
            SpecTokenKind::Ident(name) => match map_lookup(seen, name) {
                Some(first) => Err(
                    SpecParseError::Duplicate(
                        SpecDuplicate { name, first_pos: first, dup_pos: ts[i].pos },
                    ),
                ),
                None => {
                    let seen2 = seen.push((name, ts[i].pos));
                    match spec_expect(ts, i + 1, SpecTokenKind::Arrow) {
                        Ok(i2) => match spec_parse_input_type(ts, i2) {
                            Ok((ty, j)) => {
                                if j < ts.len() && ts[j].kind == SpecTokenKind::Comma {
                                    match spec_parse_input_entries(ts, j + 1, seen2) {
                                        Ok((rest, k)) => Ok((seq![(name, ty)] + rest, k)),
                                        Err(e) => Err(e),
                                    }
                                } else if j < ts.len() && ts[j].kind == SpecTokenKind::RBrace {
                                    Ok((seq![(name, ty)], j + 1))
                                } else {
                                    Err(SpecParseError::Syntax(tok_pos(ts, j)))
                                }
                            },
                            Err(e) => Err(e),
                        },
                        Err(e) => Err(e),
                    }
                },
            },
            _ => Err(SpecParseError::Syntax(ts[i].pos)),
        }
    }
}

/// The entries of the outputs mapping, parsed from just after its opening
/// brace, rejecting a repeated key the moment it is read.
pub open spec fn spec_parse_output_entries(
    ts: Seq<SpecToken>,
    i: int,
    seen: Seq<(Seq<char>, int)>,
) -> Result<(Seq<(Seq<char>, SpecOutputType)>, int), SpecParseError>
    decreases ts.len() - i,
{
    if !(0 <= i < ts.len()) {
        Err(SpecParseError::Syntax(tok_pos(ts, i)))
    } else {
        match ts[i].kind {
            SpecTokenKind::RBrace => Ok((Seq::empty(), i + 1)),
            SpecTokenKind::Ident(name) => match map_lookup(seen, name) {
                Some(first) => Err(
                    SpecParseError::Duplicate(
                        SpecDuplicate { name, first_pos: first, dup_pos: ts[i].pos },
                    ),
                ),
                None => {
                    let seen2 = seen.push((name, ts[i].pos));
                    match spec_expect(ts, i + 1, SpecTokenKind::Arrow) {
                        Ok(i2) => match spec_parse_output_type(ts, i2) {
                            Ok((ty, j)) => {
                                if j < ts.len() && ts[j].kind == SpecTokenKind::Comma {
                                    match spec_parse_output_entries(ts, j + 1, seen2) {
                                        Ok((rest, k)) => Ok((seq![(name, ty)] + rest, k)),
                                        Err(e) => Err(e),
                                    }
                                } else if j < ts.len() && ts[j].kind == SpecTokenKind::RBrace {
                                    Ok((seq![(name, ty)], j + 1))
                                } else {
                                    Err(SpecParseError::Syntax(tok_pos(ts, j)))
                                }
                            },
                            Err(e) => Err(e),
                        },
                        Err(e) => Err(e),
                    }
                },
            },
            _ => Err(SpecParseError::Syntax(ts[i].pos)),
        }
    }
}

/// A braced inputs mapping.
pub open spec fn spec_parse_input_map(ts: Seq<SpecToken>, i: int) -> Result<
    (Seq<(Seq<char>, SpecInputType)>, int),
    SpecParseError,
> {
    match spec_expect(ts, i, SpecTokenKind::LBrace) {
        Ok(i1) => spec_parse_input_entries(ts, i1, Seq::empty()),
        Err(e) => Err(e),
    }
}

/// A braced outputs mapping.
pub open spec fn spec_parse_output_map(ts: Seq<SpecToken>, i: int) -> Result<
    (Seq<(Seq<char>, SpecOutputType)>, int),
    SpecParseError,
> {
    match spec_expect(ts, i, SpecTokenKind::LBrace) {
        Ok(i1) => spec_parse_output_entries(ts, i1, Seq::empty()),
        Err(e) => Err(e),
    }
}

/// Parses the entries of the inputs mapping, from just after the opening
/// brace.
fn parse_input_entries(toks: &Vec<Token>, start: usize) -> (r: Result<
    (ParseMapOf<InputType>, usize),
    ParseError,
>)
    requires
        start <= toks@.len(),
    ensures
        match r {
            Ok((m, j)) => spec_parse_input_entries(toks_view(toks@), start as int, Seq::empty())
                == Ok::<(Seq<(Seq<char>, SpecInputType)>, int), SpecParseError>((m@, j as int))
                && start < j <= toks@.len(),
            Err(e) => spec_parse_input_entries(toks_view(toks@), start as int, Seq::empty())
                == Err::<(Seq<(Seq<char>, SpecInputType)>, int), SpecParseError>(e@),
        },
{
    let ghost ts = toks_view(toks@);
    let mut out: Vec<(Vec<char>, InputType)> = Vec::new();
    let mut seen: Vec<(Vec<char>, usize)> = Vec::new();
    let mut cur: usize = start;
    proof {
        assert(pairs_view(out@) =~= Seq::<(Seq<char>, SpecInputType)>::empty());
        assert(seen_view(seen@) =~= Seq::<(Seq<char>, int)>::empty());
        assert(match spec_parse_input_entries(ts, start as int, seen_view(seen@)) {
            Ok((rest, _)) => pairs_view(out@) + rest =~= rest,
            Err(_) => true,
        });
    }
    loop
        invariant
            ts == toks_view(toks@),
            start <= cur <= toks@.len(),
            cat_parsed(pairs_view(out@), spec_parse_input_entries(ts, cur as int, seen_view(seen@)))
                == spec_parse_input_entries(ts, start as int, Seq::<(Seq<char>, int)>::empty()),
        decreases toks@.len() - cur,
    {
        if cur >= toks.len() {
            return Err(ParseError::Syntax(SyntaxError { pos: eof_pos(toks) }));
        }
        let t = &toks[cur];
        match &t.kind {
            TokenKind::RBrace => {
                proof {
                    assert(pairs_view(out@) + Seq::<(Seq<char>, SpecInputType)>::empty()
                        =~= pairs_view(out@));
                }
                return Ok((ParseMapOf { map: out }, cur + 1));
            },
            TokenKind::Ident(n) => {
                match seen_get(&seen, n) {
                    Some(first) => {
                        return Err(
                            ParseError::Duplicate(
                                DuplicateDeclarationError {
                                    name: copy_name(n),
                                    first_pos: first,
                                    dup_pos: t.pos,
                                },
                            ),
                        );
                    },
                    None => {},
                }
                let name = copy_name(n);
                let entry = (copy_name(n), t.pos);
                proof {
                    lemma_seen_view_push(seen@, entry);
                }
                seen.push(entry);
                let i2 = match expect(toks, cur + 1, TokenKind::Arrow) {
                    Ok(i2) => i2,
                    Err(e) => {
                        return Err(e);
                    },
                };
                let (ty, j) = match InputType::parse(toks, i2) {
                    Ok(x) => x,
                    Err(e) => {
                        return Err(e);
                    },
                };
                if j < toks.len() {
                    let t2 = &toks[j];
                    match &t2.kind {
                        TokenKind::Comma => {
                            let item = (name, ty);
                            proof {
                                lemma_pairs_view_push(out@, item);
                                assert(match spec_parse_input_entries(
                                    ts,
                                    j + 1,
                                    seen_view(seen@),
                                ) {
                                    Ok((rest, _)) => {
                                        pairs_view(out@) + (seq![(n@, item.1@)] + rest)
                                            =~= pairs_view(out@).push((n@, item.1@)) + rest
                                    },
                                    Err(_) => true,
                                });
                            }
                            out.push(item);
                            cur = j + 1;
                        },
                        TokenKind::RBrace => {
                            let item = (name, ty);
                            proof {
                                lemma_pairs_view_push(out@, item);
                                assert(pairs_view(out@) + seq![(n@, item.1@)] =~= pairs_view(
                                    out@,
                                ).push((n@, item.1@)));
                            }
                            out.push(item);
                            return Ok((ParseMapOf { map: out }, j + 1));
                        },
                        _ => {
                            return Err(ParseError::Syntax(SyntaxError { pos: t2.pos }));
                        },
                    }
                } else {
                    return Err(ParseError::Syntax(SyntaxError { pos: eof_pos(toks) }));
                }
            },
            _ => {
                return Err(ParseError::Syntax(SyntaxError { pos: t.pos }));
            },
        }
    }
}

/// Parses the entries of the outputs mapping, from just after the opening
/// brace.
fn parse_output_entries(toks: &Vec<Token>, start: usize) -> (r: Result<
    (ParseMapOf<OutputType>, usize),
    ParseError,
>)
    requires
        start <= toks@.len(),
    ensures
        match r {
            Ok((m, j)) => spec_parse_output_entries(toks_view(toks@), start as int, Seq::empty())
                == Ok::<(Seq<(Seq<char>, SpecOutputType)>, int), SpecParseError>((m@, j as int))
                && start < j <= toks@.len(),
            Err(e) => spec_parse_output_entries(toks_view(toks@), start as int, Seq::empty())
                == Err::<(Seq<(Seq<char>, SpecOutputType)>, int), SpecParseError>(e@),
        },
{
    let ghost ts = toks_view(toks@);
    let mut out: Vec<(Vec<char>, OutputType)> = Vec::new();
    let mut seen: Vec<(Vec<char>, usize)> = Vec::new();
    let mut cur: usize = start;
    proof {
        assert(pairs_view(out@) =~= Seq::<(Seq<char>, SpecOutputType)>::empty());
        assert(seen_view(seen@) =~= Seq::<(Seq<char>, int)>::empty());
        assert(match spec_parse_output_entries(ts, start as int, seen_view(seen@)) {
            Ok((rest, _)) => pairs_view(out@) + rest =~= rest,
            Err(_) => true,
        });
    }
    loop
        invariant
            ts == toks_view(toks@),
            start <= cur <= toks@.len(),
            cat_parsed(
                pairs_view(out@),
                spec_parse_output_entries(ts, cur as int, seen_view(seen@)),
            ) == spec_parse_output_entries(ts, start as int, Seq::<(Seq<char>, int)>::empty()),
        decreases toks@.len() - cur,
    {
        if cur >= toks.len() {
            return Err(ParseError::Syntax(SyntaxError { pos: eof_pos(toks) }));
        }
        let t = &toks[cur];
        match &t.kind {
            TokenKind::RBrace => {
                proof {
                    assert(pairs_view(out@) + Seq::<(Seq<char>, SpecOutputType)>::empty()
                        =~= pairs_view(out@));
                }
                return Ok((ParseMapOf { map: out }, cur + 1));
            },
            TokenKind::Ident(n) => {
                match seen_get(&seen, n) {
                    Some(first) => {
                        return Err(
                            ParseError::Duplicate(
                                DuplicateDeclarationError {
                                    name: copy_name(n),
                                    first_pos: first,
                                    dup_pos: t.pos,
                                },
                            ),
                        );
                    },
                    None => {},
                }
                let name = copy_name(n);
                let entry = (copy_name(n), t.pos);
                proof {
                    lemma_seen_view_push(seen@, entry);
                }
                seen.push(entry);
                let i2 = match expect(toks, cur + 1, TokenKind::Arrow) {
                    Ok(i2) => i2,
                    Err(e) => {
                        return Err(e);
                    },
                };
                let (ty, j) = match OutputType::parse(toks, i2) {
                    Ok(x) => x,
                    Err(e) => {
                        return Err(e);
                    },
                };
                if j < toks.len() {
                    let t2 = &toks[j];
                    match &t2.kind {
                        TokenKind::Comma => {
                            let item = (name, ty);
                            proof {
                                lemma_pairs_view_push(out@, item);
                                assert(match spec_parse_output_entries(
                                    ts,
                                    j + 1,
                                    seen_view(seen@),
                                ) {
                                    Ok((rest, _)) => {
                                        pairs_view(out@) + (seq![(n@, item.1@)] + rest)
                                            =~= pairs_view(out@).push((n@, item.1@)) + rest
                                    },
                                    Err(_) => true,
                                });
                            }
                            out.push(item);
                            cur = j + 1;
                        },
                        TokenKind::RBrace => {
                            let item = (name, ty);
                            proof {
                                lemma_pairs_view_push(out@, item);
                                assert(pairs_view(out@) + seq![(n@, item.1@)] =~= pairs_view(
                                    out@,
                                ).push((n@, item.1@)));
                            }
                            out.push(item);
                            return Ok((ParseMapOf { map: out }, j + 1));
                        },
                        _ => {
                            return Err(ParseError::Syntax(SyntaxError { pos: t2.pos }));
                        },
                    }
                } else {
                    return Err(ParseError::Syntax(SyntaxError { pos: eof_pos(toks) }));
                }
            },
            _ => {
                return Err(ParseError::Syntax(SyntaxError { pos: t.pos }));
            },
        }
    }
}

impl InputBody {
    /// Parses the braced inputs mapping.
    pub fn parse(toks: &Vec<Token>, i: usize) -> (r: Result<(InputBody, usize), ParseError>)
        ensures
            match r {
                Ok((b, j)) => spec_parse_input_map(toks_view(toks@), i as int) == Ok::<
                    (Seq<(Seq<char>, SpecInputType)>, int),
                    SpecParseError,
                >((b.inputs@, j as int)) && i < j <= toks@.len(),
                Err(e) => spec_parse_input_map(toks_view(toks@), i as int) == Err::<
                    (Seq<(Seq<char>, SpecInputType)>, int),
                    SpecParseError,
                >(e@),
            },
    {
        match expect(toks, i, TokenKind::LBrace) {
            Ok(i1) => match parse_input_entries(toks, i1) {
                Ok((m, j)) => Ok((InputBody { inputs: m }, j)),
                Err(e) => Err(e),
            },
            Err(e) => Err(e),
        }
    }
}

impl OutputBody {
    /// Parses the braced outputs mapping.
    pub fn parse(toks: &Vec<Token>, i: usize) -> (r: Result<(OutputBody, usize), ParseError>)
        ensures
            match r {
                Ok((b, j)) => spec_parse_output_map(toks_view(toks@), i as int) == Ok::<
                    (Seq<(Seq<char>, SpecOutputType)>, int),
                    SpecParseError,
                >((b.outputs@, j as int)) && i < j <= toks@.len(),
                Err(e) => spec_parse_output_map(toks_view(toks@), i as int) == Err::<
                    (Seq<(Seq<char>, SpecOutputType)>, int),
                    SpecParseError,
                >(e@),
            },
    {
        match expect(toks, i, TokenKind::LBrace) {
            Ok(i1) => match parse_output_entries(toks, i1) {
                Ok((m, j)) => Ok((OutputBody { outputs: m }, j)),
                Err(e) => Err(e),
            },
            Err(e) => Err(e),
        }
    }
}

/// Parses a braced set of identifiers.
pub fn parse_set_of(toks: &Vec<Token>, i: usize) -> (r: Result<(ParseSetOf, usize), ParseError>)
    ensures
        match r {
            Ok((v, j)) => spec_parse_set(toks_view(toks@), i as int) == Ok::<
                (Seq<Seq<char>>, int),
                SpecParseError,
            >((v@, j as int)) && i < j <= toks@.len(),
            Err(e) => spec_parse_set(toks_view(toks@), i as int) == Err::<
                (Seq<Seq<char>>, int),
                SpecParseError,
            >(e@),
        },
{
    match expect(toks, i, TokenKind::LBrace) {
        Ok(i1) => parse_set_items(toks, i1),
        Err(e) => Err(e),
    }
}

// ---------------------------------------------------------------------------
// Call bodies and the calls mapping
// ---------------------------------------------------------------------------

/// One named set section of a call body: a keyword, a colon, a braced set
/// and a terminating semicolon.
pub open spec fn spec_parse_kw_set_section(ts: Seq<SpecToken>, i: int, kw: Seq<char>) -> Result<
    (Seq<Seq<char>>, int),
    SpecParseError,
> {
    match spec_expect_kw(ts, i, kw) {
        Ok(i1) => match spec_expect(ts, i1, SpecTokenKind::Colon) {
            Ok(i2) => match spec_parse_set(ts, i2) {
                Ok((v, j)) => match spec_expect(ts, j, SpecTokenKind::Semi) {
                    Ok(j1) => Ok((v, j1)),
                    Err(e) => Err(e),
                },
                Err(e) => Err(e),
            },
            Err(e) => Err(e),
        },
        Err(e) => Err(e),
    }
}

/// A braced call body: its takes, observes and writes sections.
pub open spec fn spec_parse_call_body(ts: Seq<SpecToken>, i: int) -> Result<
    (SpecCall, int),
    SpecParseError,
> {
    match spec_expect(ts, i, SpecTokenKind::LBrace) {
        Ok(i1) => match spec_parse_kw_set_section(ts, i1, kw_takes()) {
            Ok((tk, i2)) => match spec_parse_kw_set_section(ts, i2, kw_observes()) {
                Ok((ob, i3)) => match spec_parse_kw_set_section(ts, i3, kw_writes()) {
                    Ok((wr, i4)) => match spec_expect(ts, i4, SpecTokenKind::RBrace) {
                        Ok(i5) => Ok((SpecCall { takes: tk, observes: ob, writes: wr }, i5)),
                        Err(e) => Err(e),
                    },
                    Err(e) => Err(e),
                },
                Err(e) => Err(e),
            },
            Err(e) => Err(e),
        },
        Err(e) => Err(e),
    }
}

/// The entries of the calls mapping, parsed from just after its opening
/// brace, rejecting a repeated call name the moment it is read.
pub open spec fn spec_parse_call_entries(
    ts: Seq<SpecToken>,
    i: int,
    seen: Seq<(Seq<char>, int)>,
) -> Result<(Seq<(Seq<char>, SpecCall)>, int), SpecParseError>
    decreases ts.len() - i,
{
    if !(0 <= i < ts.len()) {
        Err(SpecParseError::Syntax(tok_pos(ts, i)))
    } else {
        match ts[i].kind {
            SpecTokenKind::RBrace => Ok((Seq::empty(), i + 1)),
            SpecTokenKind::Ident(name) => match map_lookup(seen, name) {
                Some(first) => Err(
                    SpecParseError::Duplicate(
                        SpecDuplicate { name, first_pos: first, dup_pos: ts[i].pos },
                    ),
                ),
                None => {
                    let seen2 = seen.push((name, ts[i].pos));
                    match spec_expect(ts, i + 1, SpecTokenKind::Colon) {
                        Ok(i2) => match spec_parse_call_body(ts, i2) {
                            Ok((call, j)) => {
                                if !(i2 < j <= ts.len()) {
                                    // A parsed call body always ends past its opening
                                    // brace; the bound keeps the recursion well-founded.
                                    Err(SpecParseError::Syntax(tok_pos(ts, j)))
                                } else if j < ts.len() && ts[j].kind == SpecTokenKind::Semi {
                                    match spec_parse_call_entries(ts, j + 1, seen2) {
                                        Ok((rest, k)) => Ok((seq![(name, call)] + rest, k)),
                                        Err(e) => Err(e),
                                    }
                                } else if j < ts.len() && ts[j].kind == SpecTokenKind::RBrace {
                                    Ok((seq![(name, call)], j + 1))
                                } else {
                                    Err(SpecParseError::Syntax(tok_pos(ts, j)))
                                }
                            },
                            Err(e) => Err(e),
                        },
                        Err(e) => Err(e),
                    }
                },
            },
            _ => Err(SpecParseError::Syntax(ts[i].pos)),
        }
    }
}

/// The braced calls mapping.
pub open spec fn spec_parse_calls_map(ts: Seq<SpecToken>, i: int) -> Result<
    (Seq<(Seq<char>, SpecCall)>, int),
    SpecParseError,
> {
    match spec_expect(ts, i, SpecTokenKind::LBrace) {
        Ok(i1) => spec_parse_call_entries(ts, i1, Seq::empty()),
        Err(e) => Err(e),
    }
}

/// Parses one named set section of a call body.
fn parse_kw_set_section(toks: &Vec<Token>, i: usize, kw: &Vec<char>) -> (r: Result<
    (ParseSetOf, usize),
    ParseError,
>)
    ensures
        match r {
            Ok((v, j)) => spec_parse_kw_set_section(toks_view(toks@), i as int, kw@) == Ok::<
                (Seq<Seq<char>>, int),
                SpecParseError,
            >((v@, j as int)) && i < j <= toks@.len(),
            Err(e) => spec_parse_kw_set_section(toks_view(toks@), i as int, kw@) == Err::<
                (Seq<Seq<char>>, int),
                SpecParseError,
            >(e@),
        },
{
    let i1 = match expect_kw(toks, i, kw) {
        Ok(x) => x,
        Err(e) => {
            return Err(e);
        },
    };
    let i2 = match expect(toks, i1, TokenKind::Colon) {
        Ok(x) => x,
        Err(e) => {
            return Err(e);
        },
    };
    let (v, j) = match parse_set_of(toks, i2) {
        Ok(x) => x,
        Err(e) => {
            return Err(e);
        },
    };
    match expect(toks, j, TokenKind::Semi) {
        Ok(j1) => Ok((v, j1)),
        Err(e) => Err(e),
    }
}

impl CallBody {
    /// Parses one braced call body.
    pub fn parse(toks: &Vec<Token>, i: usize) -> (r: Result<(CallBody, usize), ParseError>)
        ensures
            match r {
                Ok((c, j)) => spec_parse_call_body(toks_view(toks@), i as int) == Ok::<
                    (SpecCall, int),
                    SpecParseError,
                >((c@, j as int)) && i < j <= toks@.len(),
                Err(e) => spec_parse_call_body(toks_view(toks@), i as int) == Err::<
                    (SpecCall, int),
                    SpecParseError,
                >(e@),
            },
    {
        let i1 = match expect(toks, i, TokenKind::LBrace) {
            Ok(x) => x,
            Err(e) => {
                return Err(e);
            },
        };
        let takes_kw = kw_takes_vec();
        let (takes, i2) = match parse_kw_set_section(toks, i1, &takes_kw) {
            Ok(x) => x,
            Err(e) => {
                return Err(e);
            },
        };
        let observes_kw = kw_observes_vec();
        let (observes, i3) = match parse_kw_set_section(toks, i2, &observes_kw) {
            Ok(x) => x,
            Err(e) => {
                return Err(e);
            },
        };
        let writes_kw = kw_writes_vec();
        let (writes, i4) = match parse_kw_set_section(toks, i3, &writes_kw) {
            Ok(x) => x,
            Err(e) => {
                return Err(e);
            },
        };
        match expect(toks, i4, TokenKind::RBrace) {
            Ok(i5) => Ok((CallBody { takes, observes, writes }, i5)),
            Err(e) => Err(e),
        }
    }
}

/// Parses the entries of the calls mapping, from just after the opening
/// brace.
fn parse_call_entries(toks: &Vec<Token>, start: usize) -> (r: Result<
    (ParseNamed<CallBody>, usize),
    ParseError,
>)
    requires
        start <= toks@.len(),
    ensures
        match r {
            Ok((m, j)) => spec_parse_call_entries(toks_view(toks@), start as int, Seq::empty())
                == Ok::<(Seq<(Seq<char>, SpecCall)>, int), SpecParseError>((m@, j as int)) && start
                < j <= toks@.len(),
            Err(e) => spec_parse_call_entries(toks_view(toks@), start as int, Seq::empty())
                == Err::<(Seq<(Seq<char>, SpecCall)>, int), SpecParseError>(e@),
        },
{
    let ghost ts = toks_view(toks@);
    let mut out: Vec<(Vec<char>, CallBody)> = Vec::new();
    let mut seen: Vec<(Vec<char>, usize)> = Vec::new();
    let mut cur: usize = start;
    proof {
        assert(pairs_view(out@) =~= Seq::<(Seq<char>, SpecCall)>::empty());
        assert(seen_view(seen@) =~= Seq::<(Seq<char>, int)>::empty());
        assert(match spec_parse_call_entries(ts, start as int, seen_view(seen@)) {
            Ok((rest, _)) => pairs_view(out@) + rest =~= rest,
            Err(_) => true,
        });
    }
    loop
        invariant
            ts == toks_view(toks@),
            start <= cur <= toks@.len(),
            cat_parsed(pairs_view(out@), spec_parse_call_entries(ts, cur as int, seen_view(seen@)))
                == spec_parse_call_entries(ts, start as int, Seq::<(Seq<char>, int)>::empty()),
        decreases toks@.len() - cur,
    {
        if cur >= toks.len() {
            return Err(ParseError::Syntax(SyntaxError { pos: eof_pos(toks) }));
        }
        let t = &toks[cur];
        match &t.kind {
            TokenKind::RBrace => {
                proof {
                    assert(pairs_view(out@) + Seq::<(Seq<char>, SpecCall)>::empty() =~= pairs_view(
                        out@,
                    ));
                }
                return Ok((ParseNamed { map: out }, cur + 1));
            },
            TokenKind::Ident(n) => {
                match seen_get(&seen, n) {
                    Some(first) => {
                        return Err(
                            ParseError::Duplicate(
                                DuplicateDeclarationError {
                                    name: copy_name(n),
                                    first_pos: first,
                                    dup_pos: t.pos,
                                },
                            ),
                        );
                    },
                    None => {},
                }
                let name = copy_name(n);
                let entry = (copy_name(n), t.pos);
                proof {
                    lemma_seen_view_push(seen@, entry);
                }
                seen.push(entry);
                let i2 = match expect(toks, cur + 1, TokenKind::Colon) {
                    Ok(x) => x,
                    Err(e) => {
                        return Err(e);
                    },
                };
                let (call, j) = match CallBody::parse(toks, i2) {
                    Ok(x) => x,
                    Err(e) => {
                        return Err(e);
                    },
                };
                if j < toks.len() {
                    let t2 = &toks[j];
                    match &t2.kind {
                        TokenKind::Semi => {
                            let item = (name, call);
                            proof {
                                lemma_pairs_view_push(out@, item);
                                assert(match spec_parse_call_entries(
                                    ts,
                                    j + 1,
                                    seen_view(seen@),
                                ) {
                                    Ok((rest, _)) => {
                                        pairs_view(out@) + (seq![(n@, item.1@)] + rest)
                                            =~= pairs_view(out@).push((n@, item.1@)) + rest
                                    },
                                    Err(_) => true,
                                });
                            }
                            out.push(item);
                            cur = j + 1;
                        },
                        TokenKind::RBrace => {
                            let item = (name, call);
                            proof {
                                lemma_pairs_view_push(out@, item);
                                assert(pairs_view(out@) + seq![(n@, item.1@)] =~= pairs_view(
                                    out@,
                                ).push((n@, item.1@)));
                            }
                            out.push(item);
                            return Ok((ParseNamed { map: out }, j + 1));
                        },
                        _ => {
                            return Err(ParseError::Syntax(SyntaxError { pos: t2.pos }));
                        },
                    }
                } else {
                    return Err(ParseError::Syntax(SyntaxError { pos: eof_pos(toks) }));
                }
            },
            _ => {
                return Err(ParseError::Syntax(SyntaxError { pos: t.pos }));
            },
        }
    }
}

impl AllCallsBody {
    /// Parses the braced calls mapping.
    pub fn parse(toks: &Vec<Token>, i: usize) -> (r: Result<(AllCallsBody, usize), ParseError>)
        ensures
            match r {
                Ok((b, j)) => spec_parse_calls_map(toks_view(toks@), i as int) == Ok::<
                    (Seq<(Seq<char>, SpecCall)>, int),
                    SpecParseError,
                >((b.calls@, j as int)) && i < j <= toks@.len(),
                Err(e) => spec_parse_calls_map(toks_view(toks@), i as int) == Err::<
                    (Seq<(Seq<char>, SpecCall)>, int),
                    SpecParseError,
                >(e@),
            },
    {
        match expect(toks, i, TokenKind::LBrace) {
            Ok(i1) => match parse_call_entries(toks, i1) {
                Ok((m, j)) => Ok((AllCallsBody { calls: m }, j)),
                Err(e) => Err(e),
            },
            Err(e) => Err(e),
        }
    }
}

// ---------------------------------------------------------------------------
// The whole component
// ---------------------------------------------------------------------------

/// The `Name: <ident>;` section.
pub open spec fn spec_parse_name_section(ts: Seq<SpecToken>, i: int) -> Result<
    (Seq<char>, int),
    SpecParseError,
> {
    match spec_expect_kw(ts, i, kw_name()) {
        Ok(i1) => match spec_expect(ts, i1, SpecTokenKind::Colon) {
            Ok(i2) => match spec_parse_ident(ts, i2) {
                Ok((name, i3)) => match spec_expect(ts, i3, SpecTokenKind::Semi) {
                    Ok(i4) => Ok((name, i4)),
                    Err(e) => Err(e),
                },
                Err(e) => Err(e),
            },
            Err(e) => Err(e),
        },
        Err(e) => Err(e),
    }
}

/// The `Inputs: { ... };` section.
pub open spec fn spec_parse_inputs_section(ts: Seq<SpecToken>, i: int) -> Result<
    (Seq<(Seq<char>, SpecInputType)>, int),
    SpecParseError,
> {
    match spec_expect_kw(ts, i, kw_inputs()) {
        Ok(i1) => match spec_expect(ts, i1, SpecTokenKind::Colon) {
            Ok(i2) => match spec_parse_input_map(ts, i2) {
                Ok((m, i3)) => match spec_expect(ts, i3, SpecTokenKind::Semi) {
                    Ok(i4) => Ok((m, i4)),
                    Err(e) => Err(e),
                },
                Err(e) => Err(e),
            },
            Err(e) => Err(e),
        },
        Err(e) => Err(e),
    }
}

/// The `Outputs: { ... };` section.
pub open spec fn spec_parse_outputs_section(ts: Seq<SpecToken>, i: int) -> Result<
    (Seq<(Seq<char>, SpecOutputType)>, int),
    SpecParseError,
> {
    match spec_expect_kw(ts, i, kw_outputs()) {
        Ok(i1) => match spec_expect(ts, i1, SpecTokenKind::Colon) {
            Ok(i2) => match spec_parse_output_map(ts, i2) {
                Ok((m, i3)) => match spec_expect(ts, i3, SpecTokenKind::Semi) {
                    Ok(i4) => Ok((m, i4)),
                    Err(e) => Err(e),
                },
                Err(e) => Err(e),
            },
            Err(e) => Err(e),
        },
        Err(e) => Err(e),
    }
}

/// The `Calls: { ... };` section.
pub open spec fn spec_parse_calls_section(ts: Seq<SpecToken>, i: int) -> Result<
    (Seq<(Seq<char>, SpecCall)>, int),
    SpecParseError,
> {
    match spec_expect_kw(ts, i, kw_calls()) {
        Ok(i1) => match spec_expect(ts, i1, SpecTokenKind::Colon) {
            Ok(i2) => match spec_parse_calls_map(ts, i2) {
                Ok((m, i3)) => match spec_expect(ts, i3, SpecTokenKind::Semi) {
                    Ok(i4) => Ok((m, i4)),
                    Err(e) => Err(e),
                },
                Err(e) => Err(e),
            },
            Err(e) => Err(e),
        },
        Err(e) => Err(e),
    }
}

/// A whole component definition, consuming every token.
pub open spec fn spec_parse_component(ts: Seq<SpecToken>) -> Result<
    SpecComponent,
    SpecParseError,
> {
    match spec_parse_name_section(ts, 0) {
        Ok((name, i1)) => match spec_parse_inputs_section(ts, i1) {
            Ok((inputs, i2)) => match spec_parse_outputs_section(ts, i2) {
                Ok((outputs, i3)) => match spec_parse_calls_section(ts, i3) {
                    Ok((calls, i4)) => {
                        if i4 == ts.len() {
                            Ok(SpecComponent { name, inputs, outputs, calls })
                        } else {
                            Err(SpecParseError::Syntax(tok_pos(ts, i4)))
                        }
                    },
                    Err(e) => Err(e),
                },
                Err(e) => Err(e),
            },
            Err(e) => Err(e),
        },
        Err(e) => Err(e),
    }
}

/// Parses a whole token stream into a component definition, before
/// validation.
pub fn parse_component(toks: &Vec<Token>) -> (r: Result<ComponentDefinition, ParseError>)
    ensures
        match r {
            Ok(c) => spec_parse_component(toks_view(toks@)) == Ok::<
                SpecComponent,
                SpecParseError,
            >(c@),
            Err(e) => spec_parse_component(toks_view(toks@)) == Err::<
                SpecComponent,
                SpecParseError,
            >(e@),
        },
{
    let name_kw = kw_name_vec();
    let a1 = match expect_kw(toks, 0, &name_kw) {
        Ok(x) => x,
        Err(e) => {
            return Err(e);
        },
    };
    let a2 = match expect(toks, a1, TokenKind::Colon) {
        Ok(x) => x,
        Err(e) => {
            return Err(e);
        },
    };
    let (name, a3) = match parse_ident(toks, a2) {
        Ok(x) => x,
        Err(e) => {
            return Err(e);
        },
    };
    let i1 = match expect(toks, a3, TokenKind::Semi) {
        Ok(x) => x,
        Err(e) => {
            return Err(e);
        },
    };
    let inputs_kw = kw_inputs_vec();
    let b1 = match expect_kw(toks, i1, &inputs_kw) {
        Ok(x) => x,
        Err(e) => {
            return Err(e);
        },
    };
    let b2 = match expect(toks, b1, TokenKind::Colon) {
        Ok(x) => x,
        Err(e) => {
            return Err(e);
        },
    };
    let (inputs, b3) = match InputBody::parse(toks, b2) {
        Ok(x) => x,
        Err(e) => {
            return Err(e);
        },
    };
    let i2 = match expect(toks, b3, TokenKind::Semi) {
        Ok(x) => x,
        Err(e) => {
            return Err(e);
        },
    };
    let outputs_kw = kw_outputs_vec();
    let c1 = match expect_kw(toks, i2, &outputs_kw) {
        Ok(x) => x,
        Err(e) => {
            return Err(e);
        },
    };
    let c2 = match expect(toks, c1, TokenKind::Colon) {
        Ok(x) => x,
        Err(e) => {
            return Err(e);
        },
    };
    let (outputs, c3) = match OutputBody::parse(toks, c2) {
        Ok(x) => x,
        Err(e) => {
            return Err(e);
        },
    };
    let i3 = match expect(toks, c3, TokenKind::Semi) {
        Ok(x) => x,
        Err(e) => {
            return Err(e);
        },
    };
    let calls_kw = kw_calls_vec();
    let d1 = match expect_kw(toks, i3, &calls_kw) {
        Ok(x) => x,
        Err(e) => {
            return Err(e);
        },
    };
    let d2 = match expect(toks, d1, TokenKind::Colon) {
        Ok(x) => x,
        Err(e) => {
            return Err(e);
        },
    };
    let (all_calls, d3) = match AllCallsBody::parse(toks, d2) {
        Ok(x) => x,
        Err(e) => {
            return Err(e);
        },
    };
    let i4 = match expect(toks, d3, TokenKind::Semi) {
        Ok(x) => x,
        Err(e) => {
            return Err(e);
        },
    };
    if i4 == toks.len() {
        Ok(ComponentDefinition { name, inputs, outputs, all_calls })
    } else {
        let t = &toks[i4];
        Err(ParseError::Syntax(SyntaxError { pos: t.pos }))
    }
}

// ---------------------------------------------------------------------------
// A successful parse is well-formed
// ---------------------------------------------------------------------------

pub proof fn lemma_set_items_distinct(ts: Seq<SpecToken>, i: int, seen: Seq<(Seq<char>, int)>)
    requires
        distinct_names(map_keys(seen)),
    ensures
        match spec_parse_set_items(ts, i, seen) {
            Ok((v, _)) => distinct_names(map_keys(seen) + v),
            Err(_) => true,
        },
    decreases ts.len() - i,
{
    if 0 <= i < ts.len() {
        match ts[i].kind {
            SpecTokenKind::RBrace => {
                assert(map_keys(seen) + Seq::<Seq<char>>::empty() =~= map_keys(seen));
            },
            SpecTokenKind::Ident(name) => match map_lookup(seen, name) {
                Some(_) => {},
                None => {
                    lemma_map_lookup_none(seen, name);
                    let seen2 = seen.push((name, ts[i].pos));
                    assert(map_keys(seen2) =~= map_keys(seen).push(name));
                    lemma_distinct_push(map_keys(seen), name);
                    if i + 1 < ts.len() && ts[i + 1].kind == SpecTokenKind::Comma {
                        lemma_set_items_distinct(ts, i + 2, seen2);
                        match spec_parse_set_items(ts, i + 2, seen2) {
                            Ok((rest, _)) => {
                                assert(map_keys(seen) + (seq![name] + rest) =~= map_keys(seen2)
                                    + rest);
                            },
                            Err(_) => {},
                        }
                    } else if i + 1 < ts.len() && ts[i + 1].kind == SpecTokenKind::RBrace {
                        assert(map_keys(seen) + seq![name] =~= map_keys(seen2));
                    }
                },
            },
            _ => {},
        }
    }
}

pub proof fn lemma_set_distinct(ts: Seq<SpecToken>, i: int)
    ensures
        match spec_parse_set(ts, i) {
            Ok((v, _)) => distinct_names(v),
            Err(_) => true,
        },
{
    match spec_expect(ts, i, SpecTokenKind::LBrace) {
        Ok(i1) => {
            let seen = Seq::<(Seq<char>, int)>::empty();
            assert(map_keys(seen) =~= Seq::<Seq<char>>::empty());
            lemma_set_items_distinct(ts, i1, seen);
            match spec_parse_set_items(ts, i1, seen) {
                Ok((v, _)) => {
                    assert(map_keys(seen) + v =~= v);
                },
                Err(_) => {},
            }
        },
        Err(_) => {},
    }
}

pub proof fn lemma_input_entries_distinct(ts: Seq<SpecToken>, i: int, seen: Seq<(Seq<char>, int)>)
    requires
        distinct_names(map_keys(seen)),
    ensures
        match spec_parse_input_entries(ts, i, seen) {
            Ok((v, _)) => distinct_names(map_keys(seen) + map_keys(v)),
            Err(_) => true,
        },
    decreases ts.len() - i,
{
    if 0 <= i < ts.len() {
        match ts[i].kind {
            SpecTokenKind::RBrace => {
                assert(map_keys(Seq::<(Seq<char>, SpecInputType)>::empty())
                    =~= Seq::<Seq<char>>::empty());
                assert(map_keys(seen) + Seq::<Seq<char>>::empty() =~= map_keys(seen));
            },
            SpecTokenKind::Ident(name) => match map_lookup(seen, name) {
                Some(_) => {},
                None => {
                    lemma_map_lookup_none(seen, name);
                    let seen2 = seen.push((name, ts[i].pos));
                    assert(map_keys(seen2) =~= map_keys(seen).push(name));
                    lemma_distinct_push(map_keys(seen), name);
                    match spec_expect(ts, i + 1, SpecTokenKind::Arrow) {
                        Ok(i2) => match spec_parse_input_type(ts, i2) {
                            Ok((ty, j)) => {
                                if j < ts.len() && ts[j].kind == SpecTokenKind::Comma {
                                    lemma_input_entries_distinct(ts, j + 1, seen2);
                                    match spec_parse_input_entries(ts, j + 1, seen2) {
                                        Ok((rest, _)) => {
                                            assert(map_keys(seq![(name, ty)] + rest) =~= seq![name]
                                                + map_keys(rest));
                                            assert(map_keys(seen) + (seq![name] + map_keys(rest))
                                                =~= map_keys(seen2) + map_keys(rest));
                                        },
                                        Err(_) => {},
                                    }
                                } else if j < ts.len() && ts[j].kind == SpecTokenKind::RBrace {
                                    assert(map_keys(seq![(name, ty)]) =~= seq![name]);
                                    assert(map_keys(seen) + seq![name] =~= map_keys(seen2));
                                }
                            },
                            Err(_) => {},
                        },
                        Err(_) => {},
                    }
                },
            },
            _ => {},
        }
    }
}

pub proof fn lemma_output_entries_distinct(ts: Seq<SpecToken>, i: int, seen: Seq<(Seq<char>, int)>)
    requires
        distinct_names(map_keys(seen)),
    ensures
        match spec_parse_output_entries(ts, i, seen) {
            Ok((v, _)) => distinct_names(map_keys(seen) + map_keys(v)),
            Err(_) => true,
        },
    decreases ts.len() - i,
{
    if 0 <= i < ts.len() {
        match ts[i].kind {
            SpecTokenKind::RBrace => {
                assert(map_keys(Seq::<(Seq<char>, SpecOutputType)>::empty())
                    =~= Seq::<Seq<char>>::empty());
                assert(map_keys(seen) + Seq::<Seq<char>>::empty() =~= map_keys(seen));
            },
            SpecTokenKind::Ident(name) => match map_lookup(seen, name) {
                Some(_) => {},
                None => {
                    lemma_map_lookup_none(seen, name);
                    let seen2 = seen.push((name, ts[i].pos));
                    assert(map_keys(seen2) =~= map_keys(seen).push(name));
                    lemma_distinct_push(map_keys(seen), name);
                    match spec_expect(ts, i + 1, SpecTokenKind::Arrow) {
                        Ok(i2) => match spec_parse_output_type(ts, i2) {
                            Ok((ty, j)) => {
                                if j < ts.len() && ts[j].kind == SpecTokenKind::Comma {
                                    lemma_output_entries_distinct(ts, j + 1, seen2);
                                    match spec_parse_output_entries(ts, j + 1, seen2) {
                                        Ok((rest, _)) => {
                                            assert(map_keys(seq![(name, ty)] + rest) =~= seq![name]
                                                + map_keys(rest));
                                            assert(map_keys(seen) + (seq![name] + map_keys(rest))
                                                =~= map_keys(seen2) + map_keys(rest));
                                        },
                                        Err(_) => {},
                                    }
                                } else if j < ts.len() && ts[j].kind == SpecTokenKind::RBrace {
                                    assert(map_keys(seq![(name, ty)]) =~= seq![name]);
                                    assert(map_keys(seen) + seq![name] =~= map_keys(seen2));
                                }
                            },
                            Err(_) => {},
                        },
                        Err(_) => {},
                    }
                },
            },
            _ => {},
        }
    }
}

pub proof fn lemma_kw_set_section_distinct(ts: Seq<SpecToken>, i: int, kw: Seq<char>)
    ensures
        match spec_parse_kw_set_section(ts, i, kw) {
            Ok((v, _)) => distinct_names(v),
            Err(_) => true,
        },
{
    match spec_expect_kw(ts, i, kw) {
        Ok(i1) => match spec_expect(ts, i1, SpecTokenKind::Colon) {
            Ok(i2) => {
                lemma_set_distinct(ts, i2);
            },
            Err(_) => {},
        },
        Err(_) => {},
    }
}

pub proof fn lemma_call_body_wf(ts: Seq<SpecToken>, i: int)
    ensures
        match spec_parse_call_body(ts, i) {
            Ok((c, _)) => c.wf(),
            Err(_) => true,
        },
{
    match spec_expect(ts, i, SpecTokenKind::LBrace) {
        Ok(i1) => {
            lemma_kw_set_section_distinct(ts, i1, kw_takes());
            match spec_parse_kw_set_section(ts, i1, kw_takes()) {
                Ok((_, i2)) => {
                    lemma_kw_set_section_distinct(ts, i2, kw_observes());
                    match spec_parse_kw_set_section(ts, i2, kw_observes()) {
                        Ok((_, i3)) => {
                            lemma_kw_set_section_distinct(ts, i3, kw_writes());
                        },
                        Err(_) => {},
                    }
                },
                Err(_) => {},
            }
        },
        Err(_) => {},
    }
}

pub proof fn lemma_call_entries_wf(ts: Seq<SpecToken>, i: int, seen: Seq<(Seq<char>, int)>)
    requires
        distinct_names(map_keys(seen)),
    ensures
        match spec_parse_call_entries(ts, i, seen) {
            Ok((v, _)) => distinct_names(map_keys(seen) + map_keys(v)) && (forall|k: int|
                0 <= k < v.len() ==> (#[trigger] v[k].1).wf()),
            Err(_) => true,
        },
    decreases ts.len() - i,
{
    if 0 <= i < ts.len() {
        match ts[i].kind {
            SpecTokenKind::RBrace => {
                assert(map_keys(Seq::<(Seq<char>, SpecCall)>::empty())
                    =~= Seq::<Seq<char>>::empty());
                assert(map_keys(seen) + Seq::<Seq<char>>::empty() =~= map_keys(seen));
            },
            SpecTokenKind::Ident(name) => match map_lookup(seen, name) {
                Some(_) => {},
                None => {
                    lemma_map_lookup_none(seen, name);
                    let seen2 = seen.push((name, ts[i].pos));
                    assert(map_keys(seen2) =~= map_keys(seen).push(name));
                    lemma_distinct_push(map_keys(seen), name);
                    match spec_expect(ts, i + 1, SpecTokenKind::Colon) {
                        Ok(i2) => match spec_parse_call_body(ts, i2) {
                            Ok((call, j)) => {
                                lemma_call_body_wf(ts, i2);
                                if !(i2 < j <= ts.len()) {
                                } else if j < ts.len() && ts[j].kind == SpecTokenKind::Semi {
                                    lemma_call_entries_wf(ts, j + 1, seen2);
                                    match spec_parse_call_entries(ts, j + 1, seen2) {
                                        Ok((rest, _)) => {
                                            assert(map_keys(seq![(name, call)] + rest)
                                                =~= seq![name] + map_keys(rest));
                                            assert(map_keys(seen) + (seq![name] + map_keys(rest))
                                                =~= map_keys(seen2) + map_keys(rest));
                                            let v = seq![(name, call)] + rest;
                                            assert forall|k: int|
                                                0 <= k < v.len() implies (#[trigger] v[k].1).wf() by {
                                                if k > 0 {
                                                    assert(v[k] == rest[k - 1]);
                                                } else {
                                                    assert(v[0] == (name, call));
                                                }
                                            }
                                        },
                                        Err(_) => {},
                                    }
                                } else if j < ts.len() && ts[j].kind == SpecTokenKind::RBrace {
                                    assert(map_keys(seq![(name, call)]) =~= seq![name]);
                                    assert(map_keys(seen) + seq![name] =~= map_keys(seen2));
                                    let v = seq![(name, call)];
                                    assert(v[0] == (name, call));
                                }
                            },
                            Err(_) => {},
                        },
                        Err(_) => {},
                    }
                },
            },
            _ => {},
        }
    }
}

/// A component that parses is well-formed: every mapping's keys are
/// distinct and every call's sets are.
pub proof fn lemma_parse_component_wf(ts: Seq<SpecToken>)
    ensures
        match spec_parse_component(ts) {
            Ok(c) => c.wf(),
            Err(_) => true,
        },
{
    let ghost empty_seen = Seq::<(Seq<char>, int)>::empty();
    assert(map_keys(empty_seen) =~= Seq::<Seq<char>>::empty());
    match spec_parse_name_section(ts, 0) {
        Ok((_, i1)) => match spec_expect_kw(ts, i1, kw_inputs()) {
            Ok(a1) => match spec_expect(ts, a1, SpecTokenKind::Colon) {
                Ok(a2) => match spec_expect(ts, a2, SpecTokenKind::LBrace) {
                    Ok(a3) => {
                        lemma_input_entries_distinct(ts, a3, empty_seen);
                        match spec_parse_input_entries(ts, a3, empty_seen) {
                            Ok((inputs, a4)) => {
                                assert(map_keys(empty_seen) + map_keys(inputs) =~= map_keys(
                                    inputs,
                                ));
                                match spec_expect(ts, a4, SpecTokenKind::Semi) {
                                    Ok(i2) => match spec_expect_kw(ts, i2, kw_outputs()) {
                                        Ok(b1) => match spec_expect(ts, b1, SpecTokenKind::Colon) {
                                            Ok(b2) => match spec_expect(
                                                ts,
                                                b2,
                                                SpecTokenKind::LBrace,
                                            ) {
                                                Ok(b3) => {
                                                    lemma_output_entries_distinct(
                                                        ts,
                                                        b3,
                                                        empty_seen,
                                                    );
                                                    match spec_parse_output_entries(
                                                        ts,
                                                        b3,
                                                        empty_seen,
                                                    ) {
                                                        Ok((outputs, b4)) => {
                                                            assert(map_keys(empty_seen) + map_keys(
                                                                outputs,
                                                            ) =~= map_keys(outputs));
                                                            match spec_expect(
                                                                ts,
                                                                b4,
                                                                SpecTokenKind::Semi,
                                                            ) {
                                                                Ok(i3) => match spec_expect_kw(
                                                                    ts,
                                                                    i3,
                                                                    kw_calls(),
                                                                ) {
                                                                    Ok(c1) => match spec_expect(
                                                                        ts,
                                                                        c1,
                                                                        SpecTokenKind::Colon,
                                                                    ) {
                                                                        Ok(c2) => match spec_expect(
                                                                            ts,
                                                                            c2,
                                                                            SpecTokenKind::LBrace,
                                                                        ) {
                                                                            Ok(c3) => {
                                                                                lemma_call_entries_wf(
                                                                                    ts,
                                                                                    c3,
                                                                                    empty_seen,
                                                                                );
                                                                                match spec_parse_call_entries(
                                                                                    ts,
                                                                                    c3,
                                                                                    empty_seen,
                                                                                ) {
                                                                                    Ok(
                                                                                        (calls, _),
                                                                                    ) => {
                                                                                        assert(map_keys(
                                                                                            empty_seen,
                                                                                        )
                                                                                            + map_keys(
                                                                                            calls,
                                                                                        ) =~= map_keys(
                                                                                            calls,
                                                                                        ));
                                                                                    },
                                                                                    Err(_) => {},
                                                                                }
                                                                            },
                                                                            Err(_) => {},
                                                                        },
                                                                        Err(_) => {},
                                                                    },
                                                                    Err(_) => {},
                                                                },
                                                                Err(_) => {},
                                                            }
                                                        },
                                                        Err(_) => {},
                                                    }
                                                },
                                                Err(_) => {},
                                            },
                                            Err(_) => {},
                                        },
                                        Err(_) => {},
                                    },
                                    Err(_) => {},
                                }
                            },
                            Err(_) => {},
                        }
                    },
                    Err(_) => {},
                },
                Err(_) => {},
            },
            Err(_) => {},
        },
        Err(_) => {},
    }
}

// ---------------------------------------------------------------------------
// Parsing with validation
// ---------------------------------------------------------------------------

/// What parsing and validating a token stream yields: the validated
/// component, or the first error of the earliest failing stage.
pub open spec fn spec_component_of_tokens(ts: Seq<SpecToken>) -> Result<
    SpecComponent,
    SpecCompileError,
> {
    match spec_parse_component(ts) {
        Ok(c) => match spec_validate(c) {
            Some(e) => Err(SpecCompileError::Reference(e)),
            None => Ok(c),
        },
        Err(e) => Err(spec_parse_to_compile(e)),
    }
}

impl ComponentDefinition {
    /// Parses a whole token stream and validates the referential integrity
    /// of the result, as one step.
    pub fn parse(toks: &Vec<Token>) -> (r: Result<ComponentDefinition, CompileError>)
        ensures
            match r {
                Ok(c) => spec_component_of_tokens(toks_view(toks@)) == Ok::<
                    SpecComponent,
                    SpecCompileError,
                >(c@) && c@.wf() && spec_validate(c@) is None,
                Err(e) => spec_component_of_tokens(toks_view(toks@)) == Err::<
                    SpecComponent,
                    SpecCompileError,
                >(e@),
            },
    {
        let def = match parse_component(toks) {
            Ok(d) => d,
            Err(e) => {
                return Err(e.into_compile());
            },
        };
        proof {
            lemma_parse_component_wf(toks_view(toks@));
        }
        match def.validate() {
            Ok(_) => Ok(def),
            Err(e) => Err(CompileError::Reference(e)),
        }
    }
}

} // verus!
