//! Program assembly: structural extraction of top-level blocks, re-homing
//! of `=>`-tagged functions into their result groups, and the final
//! semantic `Program`.

use vstd::prelude::*;

use crate::blocks::find_close;
use crate::blocks::find_open;
use crate::blocks::find_close_exec;
use crate::blocks::find_open_exec;
use crate::blocks::lemma_find_close_bounds;
use crate::blocks::lemma_find_open_bounds;
use crate::blocks::subrange_vec;
use crate::function::extract_fns;
use crate::function::FuncParser;
use crate::function::FuncParserView;
use crate::function::Function;
use crate::function::FunctionView;
use crate::function::parse_func_sig;
use crate::result::parse_funcs_vec;
use crate::result::parse_functions;
use crate::result::parse_result;
use crate::result::parse_result_sig;
use crate::result::ResultParser;
use crate::result::ResultParserView;
use crate::result::RoResult;
use crate::result::RoResultView;
use crate::tokenizer::str_eq;
use crate::tokenizer::TokenList;
use crate::ParseError;

verus! {

// ---------------------------------------------------------------------------
// Structural extraction of top-level blocks.
// ---------------------------------------------------------------------------

/// The top-level `fn` and `result` blocks found scanning from position `i`.
/// A `result` body is itself scanned for the `fn` blocks it contains.
pub open spec fn extract_program(tokens: Seq<Seq<char>>, i: int) -> Result<
    (Seq<FuncParserView>, Seq<ResultParserView>),
    ParseError,
>
    decreases tokens.len() - i
        via extract_program_decreases
{
    if i < 0 || i >= tokens.len() {
        Ok((seq![], seq![]))
    } else if tokens[i] == "fn"@ {
        match find_open(tokens, i + 1) {
            None => Err(ParseError::UnterminatedBlock),
            Some(o) => match find_close(tokens, o + 1, 1) {
                None => Err(ParseError::UnterminatedBlock),
                Some(c) => match extract_program(tokens, c + 1) {
                    Ok(rest) => Ok(
                        (
                            seq![
                                FuncParserView {
                                    signature: tokens.subrange(i + 1, o),
                                    code: tokens.subrange(o + 1, c),
                                },
                            ] + rest.0,
                            rest.1,
                        ),
                    ),
                    Err(e) => Err(e),
                },
            },
        }
    } else if tokens[i] == "result"@ {
        match find_open(tokens, i + 1) {
            None => Err(ParseError::UnterminatedBlock),
            Some(o) => match find_close(tokens, o + 1, 1) {
                None => Err(ParseError::UnterminatedBlock),
                Some(c) => match extract_fns(tokens.subrange(o + 1, c), 0) {
                    Err(e) => Err(e),
                    Ok(fns) => match extract_program(tokens, c + 1) {
                        Ok(rest) => Ok(
                            (
                                rest.0,
                                seq![
                                    ResultParserView {
                                        signature: tokens.subrange(i + 1, o),
                                        functions: fns,
                                    },
                                ] + rest.1,
                            ),
                        ),
                        Err(e) => Err(e),
                    },
                },
            },
        }
    } else {
        extract_program(tokens, i + 1)
    }
}

#[via_fn]
proof fn extract_program_decreases(tokens: Seq<Seq<char>>, i: int) {
    if 0 <= i && i < tokens.len() {
        if find_open(tokens, i + 1) is Some {
            lemma_find_open_bounds(tokens, i + 1);
            let o = find_open(tokens, i + 1).unwrap();
            if find_close(tokens, o + 1, 1) is Some {
                lemma_find_close_bounds(tokens, o + 1, 1);
            }
        }
    }
}

// ---------------------------------------------------------------------------
// The raw program and its parser.
// ---------------------------------------------------------------------------

/// The mathematical value of a raw program.
#[verifier::ext_equal]
pub struct ProgramParserView {
    pub results: Seq<ResultParserView>,
    pub functions: Seq<FuncParserView>,
}

/// The raw block tree of a compilation unit: the top-level function blocks
/// and the result blocks, in encounter order.
#[derive(Clone, Debug, PartialEq)]
pub struct ProgramParser {
    pub results: Vec<ResultParser>,
    pub functions: Vec<FuncParser>,
}

impl View for ProgramParser {
    type V = ProgramParserView;

    open spec fn view(&self) -> ProgramParserView {
        ProgramParserView {
            results: self.results.deep_view(),
            functions: self.functions.deep_view(),
        }
    }
}

/// The mathematical value of an assembled program.
#[verifier::ext_equal]
pub struct ProgramView {
    pub results: Seq<RoResultView>,
    pub functions: Seq<FunctionView>,
}

/// The final artifact handed to the backend: the top-level functions and
/// the result groups, fully parsed.
#[derive(Clone, Debug, PartialEq)]
pub struct Program {
    pub results: Vec<RoResult>,
    pub functions: Vec<Function>,
}

impl View for Program {
    type V = ProgramView;

    open spec fn view(&self) -> ProgramView {
        ProgramView { results: self.results.deep_view(), functions: self.functions.deep_view() }
    }
}

// ---------------------------------------------------------------------------
// Re-homing of `=>`-tagged functions.
// ---------------------------------------------------------------------------

/// The header spans of the result blocks, in order.
pub open spec fn result_sigs(results: Seq<ResultParserView>) -> Seq<Seq<Seq<char>>> {
    results.map_values(|r: ResultParserView| r.signature)
}

/// The index of the first result group whose parsed name is `name`,
/// scanning from `j`: a result signature that fails to parse fails the
/// lookup, and a name matching no group is an `UnresolvedResultReference`.
pub open spec fn lookup_sig(sigs: Seq<Seq<Seq<char>>>, name: Seq<char>, j: int) -> Result<
    int,
    ParseError,
>
    decreases sigs.len() - j,
{
    if j < 0 || j >= sigs.len() {
        Err(ParseError::UnresolvedResultReference)
    } else {
        match parse_result_sig(sigs[j]) {
            Err(e) => Err(e),
            Ok(s) => if s.name == name {
                Ok(j)
            } else {
                lookup_sig(sigs, name, j + 1)
            },
        }
    }
}

pub proof fn lemma_lookup_sig_bound(sigs: Seq<Seq<Seq<char>>>, name: Seq<char>, j: int)
    requires
        0 <= j,
        lookup_sig(sigs, name, j) is Ok,
    ensures
        j <= lookup_sig(sigs, name, j).unwrap() < sigs.len(),
    decreases sigs.len() - j,
{
    if j < sigs.len() {
        match parse_result_sig(sigs[j]) {
            Ok(s) => {
                if s.name != name {
                    lemma_lookup_sig_bound(sigs, name, j + 1);
                }
            },
            Err(_) => {},
        }
    }
}

/// Where a function block belongs: `None` for the top level, `Some(j)` for
/// the result group its `=>` annotation names.
pub open spec fn target_of(sigs: Seq<Seq<Seq<char>>>, f: FuncParserView) -> Result<
    Option<int>,
    ParseError,
> {
    match parse_func_sig(f.signature).result {
        None => Ok(None),
        Some(rname) => match lookup_sig(sigs, rname, 0) {
            Ok(j) => Ok(Some(j)),
            Err(e) => Err(e),
        },
    }
}

/// The first failure among the functions' targets, in order.
pub open spec fn move_error(
    sigs: Seq<Seq<Seq<char>>>,
    funcs: Seq<FuncParserView>,
    k: int,
) -> Option<ParseError>
    decreases funcs.len() - k,
{
    if k < 0 || k >= funcs.len() {
        None
    } else {
        match target_of(sigs, funcs[k]) {
            Ok(_) => move_error(sigs, funcs, k + 1),
            Err(e) => Some(e),
        }
    }
}

/// The functions from position `k` on that stay at the top level.
pub open spec fn kept_from(
    sigs: Seq<Seq<Seq<char>>>,
    funcs: Seq<FuncParserView>,
    k: int,
) -> Seq<FuncParserView>
    decreases funcs.len() - k,
{
    if k < 0 || k >= funcs.len() {
        seq![]
    } else if target_of(sigs, funcs[k]) == Ok::<Option<int>, ParseError>(None) {
        seq![funcs[k]] + kept_from(sigs, funcs, k + 1)
    } else {
        kept_from(sigs, funcs, k + 1)
    }
}

/// The functions from position `k` on that move into result group `j`, in
/// order.
pub open spec fn moved_to(
    sigs: Seq<Seq<Seq<char>>>,
    funcs: Seq<FuncParserView>,
    j: int,
    k: int,
) -> Seq<FuncParserView>
    decreases funcs.len() - k,
{
    if k < 0 || k >= funcs.len() {
        seq![]
    } else if target_of(sigs, funcs[k]) == Ok::<Option<int>, ParseError>(Some(j)) {
        seq![funcs[k]] + moved_to(sigs, funcs, j, k + 1)
    } else {
        moved_to(sigs, funcs, j, k + 1)
    }
}

/// The raw program after a successful move: tagged functions leave the top
/// level and are appended, in encounter order, to their result group.
pub open spec fn move_ok_state(pp: ProgramParserView) -> ProgramParserView {
    let sigs = result_sigs(pp.results);
    ProgramParserView {
        results: Seq::new(
            pp.results.len(),
            |j: int|
                ResultParserView {
                    signature: pp.results[j].signature,
                    functions: pp.results[j].functions + moved_to(sigs, pp.functions, j, 0),
                },
        ),
        functions: kept_from(sigs, pp.functions, 0),
    }
}

// ---------------------------------------------------------------------------
// Full assembly.
// ---------------------------------------------------------------------------

/// What a sequence of raw result blocks parses to, stopping at the first
/// failure.
pub open spec fn parse_results_seq(results: Seq<ResultParserView>) -> Result<
    Seq<RoResultView>,
    ParseError,
>
    decreases results.len(),
{
    if results.len() == 0 {
        Ok(seq![])
    } else {
        match parse_result(results[0]) {
            Ok(r) => match parse_results_seq(results.drop_first()) {
                Ok(rest) => Ok(seq![r] + rest),
                Err(e) => Err(e),
            },
            Err(e) => Err(e),
        }
    }
}

/// What a raw program assembles to: the move first, then the result
/// groups, then the remaining top-level functions.
pub open spec fn assemble(pp: ProgramParserView) -> Result<ProgramView, ParseError> {
    match move_error(result_sigs(pp.results), pp.functions, 0) {
        Some(e) => Err(e),
        None => {
            let moved = move_ok_state(pp);
            match parse_results_seq(moved.results) {
                Err(e) => Err(e),
                Ok(results) => match parse_functions(moved.functions) {
                    Err(e) => Err(e),
                    Ok(functions) => Ok(ProgramView { results, functions }),
                },
            }
        },
    }
}

impl ProgramParser {
    /// Scans a token list for its top-level `fn` and `result` blocks.
    pub fn from_tokens(tokens: TokenList) -> (r: Result<ProgramParser, ParseError>)
        ensures
            match r {
                Ok(pp) => extract_program(tokens.deep_view(), 0) == Ok::<
                    (Seq<FuncParserView>, Seq<ResultParserView>),
                    ParseError,
                >((pp@.functions, pp@.results)),
                Err(e) => extract_program(tokens.deep_view(), 0) == Err::<
                    (Seq<FuncParserView>, Seq<ResultParserView>),
                    ParseError,
                >(e),
            },
    {
        let ghost toks = tokens.deep_view();
        let mut functions: Vec<FuncParser> = Vec::new();
        let mut results: Vec<ResultParser> = Vec::new();
        let mut token: usize = 0;
        while token < tokens.len()
            invariant
                toks == tokens.deep_view(),
                token <= toks.len(),
                (match extract_program(toks, token as int) {
                    Ok(rest) => extract_program(toks, 0) == Ok::<
                        (Seq<FuncParserView>, Seq<ResultParserView>),
                        ParseError,
                    >((functions.deep_view() + rest.0, results.deep_view() + rest.1)),
                    Err(e) => extract_program(toks, 0) == Err::<
                        (Seq<FuncParserView>, Seq<ResultParserView>),
                        ParseError,
                    >(e),
                }),
            decreases toks.len() - token,
        {
            if str_eq(tokens[token].as_str(), "fn") {
                let o = match find_open_exec(&tokens, token + 1) {
                    Some(o) => o,
                    None => {
                        return Err(ParseError::UnterminatedBlock);
                    },
                };
                let c = match find_close_exec(&tokens, o + 1) {
                    Some(c) => c,
                    None => {
                        return Err(ParseError::UnterminatedBlock);
                    },
                };
                let signature = subrange_vec(&tokens, token + 1, o);
                let code = subrange_vec(&tokens, o + 1, c);
                let ghost pre = functions.deep_view();
                let ghost fpv = FuncParserView {
                    signature: toks.subrange(token as int + 1, o as int),
                    code: toks.subrange(o as int + 1, c as int),
                };
                functions.push(FuncParser { signature, code });
                proof {
                    assert(functions.deep_view() =~= pre + seq![fpv]);
                    if extract_program(toks, c as int + 1) is Ok {
                        let rest = extract_program(toks, c as int + 1).unwrap();
                        assert((pre + seq![fpv]) + rest.0 =~= pre + (seq![fpv] + rest.0));
                    }
                }
                token = c + 1;
            } else if str_eq(tokens[token].as_str(), "result") {
                let o = match find_open_exec(&tokens, token + 1) {
                    Some(o) => o,
                    None => {
                        return Err(ParseError::UnterminatedBlock);
                    },
                };
                let c = match find_close_exec(&tokens, o + 1) {
                    Some(c) => c,
                    None => {
                        return Err(ParseError::UnterminatedBlock);
                    },
                };
                let signature = subrange_vec(&tokens, token + 1, o);
                let code = subrange_vec(&tokens, o + 1, c);
                let fns = match FuncParser::vec_from_tokens(code) {
                    Ok(f) => f,
                    Err(e) => {
                        return Err(e);
                    },
                };
                let ghost pre = results.deep_view();
                let ghost rpv = ResultParserView {
                    signature: toks.subrange(token as int + 1, o as int),
                    functions: fns.deep_view(),
                };
                results.push(ResultParser { signature, functions: fns });
                proof {
                    assert(results.deep_view() =~= pre + seq![rpv]);
                    if extract_program(toks, c as int + 1) is Ok {
                        let rest = extract_program(toks, c as int + 1).unwrap();
                        assert((pre + seq![rpv]) + rest.1 =~= pre + (seq![rpv] + rest.1));
                    }
                }
                token = c + 1;
            } else {
                token += 1;
            }
        }
        proof {
            assert(functions.deep_view() + Seq::<FuncParserView>::empty()
                =~= functions.deep_view());
            assert(results.deep_view() + Seq::<ResultParserView>::empty() =~= results.deep_view());
        }
        Ok(ProgramParser { results, functions })
    }

    /// Moves every `=>`-tagged function out of the top level and into the
    /// result group its annotation names, in encounter order; fails — and
    /// leaves the program untouched — if an annotation resolves to no
    /// group.
    pub fn move_funcs(&mut self) -> (r: Result<(), ParseError>)
        ensures
            match r {
                Ok(()) => move_error(
                    result_sigs(old(self)@.results),
                    old(self)@.functions,
                    0,
                ) is None && final(self)@ == move_ok_state(old(self)@),
                Err(e) => move_error(result_sigs(old(self)@.results), old(self)@.functions, 0)
                    == Some(e) && final(self)@ == old(self)@,
            },
    {
        let ghost fv = self.functions.deep_view();
        let ghost rv = self.results.deep_view();
        let ghost sigs = result_sigs(rv);
        let n_funcs = self.functions.len();

        // First pass, read-only: where does each function go?
        let mut targets: Vec<Option<usize>> = Vec::new();
        let mut fi: usize = 0;
        while fi < self.functions.len()
            invariant
                fv == self.functions.deep_view(),
                rv == self.results.deep_view(),
                sigs == result_sigs(rv),
                targets@.len() == fi,
                fi <= fv.len(),
                move_error(sigs, fv, 0) == move_error(sigs, fv, fi as int),
                forall|k: int|
                    0 <= k < fi ==> target_of(sigs, fv[k]) == Ok::<Option<int>, ParseError>(
                        match targets@[k] {
                            Some(u) => Some(u as int),
                            None => None,
                        },
                    ),
            decreases fv.len() - fi,
        {
            let sig = self.functions[fi].parse_signature();
            match sig.result {
                None => {
                    targets.push(None);
                },
                Some(rname) => {
                    proof {
                        assert(fv[fi as int] == self.functions@[fi as int].deep_view());
                        assert(parse_func_sig(fv[fi as int].signature).result == Some(rname@));
                    }
                    let mut j: usize = 0;
                    let mut found: Option<usize> = None;
                    loop
                        invariant_except_break
                            rv == self.results.deep_view(),
                            fv == self.functions.deep_view(),
                            sigs == result_sigs(rv),
                            sigs.len() == rv.len(),
                            rv.len() == self.results@.len(),
                            fi < fv.len(),
                            parse_func_sig(fv[fi as int].signature).result == Some(rname@),
                            move_error(sigs, fv, 0) == move_error(sigs, fv, fi as int),
                            j <= rv.len(),
                            found is None,
                            lookup_sig(sigs, rname@, 0) == lookup_sig(sigs, rname@, j as int),
                        ensures
                            rv == self.results.deep_view(),
                            match found {
                                Some(j2) => lookup_sig(sigs, rname@, 0) == Ok::<int, ParseError>(
                                    j2 as int,
                                ) && j2 < self.results@.len(),
                                None => lookup_sig(sigs, rname@, 0) == Err::<int, ParseError>(
                                    ParseError::UnresolvedResultReference,
                                ),
                            },
                        decreases rv.len() - j,
                    {
                        if j >= self.results.len() {
                            break;
                        }
                        let rs = match self.results[j].parse_signature() {
                            Ok(rs) => rs,
                            Err(e) => {
                                proof {
                                    assert(rv[j as int] == self.results@[j as int].deep_view());
                                    assert(sigs[j as int] == rv[j as int].signature);
                                    assert(lookup_sig(sigs, rname@, j as int) == Err::<
                                        int,
                                        ParseError,
                                    >(e));
                                    assert(target_of(sigs, fv[fi as int]) == Err::<
                                        Option<int>,
                                        ParseError,
                                    >(e));
                                    assert(move_error(sigs, fv, fi as int) == Some(e));
                                }
                                return Err(e);
                            },
                        };
                        proof {
                            assert(sigs[j as int] == rv[j as int].signature);
                        }
                        if str_eq(rs.name.as_str(), rname.as_str()) {
                            found = Some(j);
                            break;
                        }
                        j += 1;
                    }
                    match found {
                        Some(jf) => {
                            targets.push(Some(jf));
                        },
                        None => {
                            return Err(ParseError::UnresolvedResultReference);
                        },
                    }
                },
            }
            fi += 1;
        }

        // Second pass: apply the moves.
        let mut old_functions: Vec<FuncParser> = Vec::new();
        core::mem::swap(&mut old_functions, &mut self.functions);
        let mut k: usize = 0;
        proof {
            assert(old_functions.deep_view() =~= fv.skip(0));
            assert(self.functions.deep_view() + kept_from(sigs, fv, 0) =~= kept_from(sigs, fv, 0));
        }
        while old_functions.len() > 0
            invariant
                sigs == result_sigs(rv),
                targets@.len() == fv.len(),
                fv.len() == n_funcs as nat,
                k <= fv.len(),
                old_functions.deep_view() == fv.skip(k as int),
                old_functions@.len() == fv.len() - k,
                forall|k2: int|
                    0 <= k2 < fv.len() ==> target_of(sigs, fv[k2]) == Ok::<Option<int>, ParseError>(
                        match targets@[k2] {
                            Some(u) => Some(u as int),
                            None => None,
                        },
                    ),
                self.functions.deep_view() + kept_from(sigs, fv, k as int) == kept_from(
                    sigs,
                    fv,
                    0,
                ),
                self.results@.len() == rv.len(),
                forall|j: int|
                    0 <= j < rv.len() ==> #[trigger] self.results.deep_view()[j].signature == rv[
                        j
                    ].signature,
                forall|j: int|
                    0 <= j < rv.len() ==> #[trigger] self.results.deep_view()[j].functions
                        + moved_to(sigs, fv, j, k as int) == rv[j].functions + moved_to(
                        sigs,
                        fv,
                        j,
                        0,
                    ),
            decreases old_functions@.len(),
        {
            proof {
                assert(fv.skip(k as int).len() > 0);
                assert(fv.skip(k as int)[0] == fv[k as int]);
                assert(fv.skip(k as int).remove(0) =~= fv.skip(k as int + 1));
            }
            let f = old_functions.remove(0);
            match targets[k] {
                None => {
                    let ghost pre = self.functions.deep_view();
                    self.functions.push(f);
                    proof {
                        assert(self.functions.deep_view() =~= pre + seq![fv[k as int]]);
                        assert((pre + seq![fv[k as int]]) + kept_from(sigs, fv, k as int + 1)
                            =~= pre + (seq![fv[k as int]] + kept_from(sigs, fv, k as int + 1)));
                    }
                },
                Some(j) => {
                    proof {
                        lemma_lookup_sig_bound(sigs, parse_func_sig(fv[k as int].signature).result.unwrap(), 0);
                    }
                    let ghost pre_results = self.results.deep_view();
                    let mut rp = self.results.remove(j);
                    let ghost pre_rp_functions = rp.functions.deep_view();
                    rp.functions.push(f);
                    proof {
                        assert(rp.functions.deep_view() =~= pre_rp_functions + seq![
                            fv[k as int],
                        ]);
                    }
                    self.results.insert(j, rp);
                    proof {
                        let updated = ResultParserView {
                            signature: pre_results[j as int].signature,
                            functions: pre_results[j as int].functions + seq![fv[k as int]],
                        };
                        assert(self.results.deep_view() =~= pre_results.update(j as int, updated));
                        assert forall|j2: int| 0 <= j2 < rv.len() implies #[trigger] self
                            .results.deep_view()[j2].functions + moved_to(
                            sigs,
                            fv,
                            j2,
                            k as int + 1,
                        ) == rv[j2].functions + moved_to(sigs, fv, j2, 0) by {
                            if j2 == j as int {
                                assert((pre_results[j2].functions + seq![fv[k as int]]) + moved_to(
                                    sigs,
                                    fv,
                                    j2,
                                    k as int + 1,
                                ) =~= pre_results[j2].functions + (seq![fv[k as int]] + moved_to(
                                    sigs,
                                    fv,
                                    j2,
                                    k as int + 1,
                                )));
                            }
                        }
                    }
                },
            }
            k += 1;
        }
        proof {
            assert(fv.skip(k as int) =~= Seq::<FuncParserView>::empty());
            assert(kept_from(sigs, fv, k as int) =~= Seq::<FuncParserView>::empty());
            assert(self.functions.deep_view() + Seq::<FuncParserView>::empty()
                =~= self.functions.deep_view());
            assert forall|j: int| 0 <= j < rv.len() implies #[trigger] self.results.deep_view()[j]
                == move_ok_state(old(self)@).results[j] by {
                assert(moved_to(sigs, fv, j, k as int) =~= Seq::<FuncParserView>::empty());
                assert(self.results.deep_view()[j].functions + Seq::<FuncParserView>::empty()
                    =~= self.results.deep_view()[j].functions);
                assert(self.results.deep_view()[j] =~~= move_ok_state(old(self)@).results[j]);
            }
            assert(self.results.deep_view() =~= move_ok_state(old(self)@).results);
            assert(final(self)@ =~~= move_ok_state(old(self)@));
        }
        Ok(())
    }

    /// Parses the current top-level function blocks, in order.
    pub fn parse_funcs(&self) -> (r: Result<Vec<Function>, ParseError>)
        ensures
            match r {
                Ok(v) => parse_functions(self@.functions) == Ok::<Seq<FunctionView>, ParseError>(
                    v.deep_view(),
                ),
                Err(e) => parse_functions(self@.functions) == Err::<Seq<FunctionView>, ParseError>(
                    e,
                ),
            },
    {
        parse_funcs_vec(&self.functions)
    }

    /// Moves the tagged functions home, then parses every result group.
    pub fn parse_results(&mut self) -> (r: Result<Vec<RoResult>, ParseError>)
        ensures
            match r {
                Ok(v) => move_error(result_sigs(old(self)@.results), old(self)@.functions, 0)
                    is None && final(self)@ == move_ok_state(old(self)@) && parse_results_seq(
                    move_ok_state(old(self)@).results,
                ) == Ok::<Seq<RoResultView>, ParseError>(v.deep_view()),
                Err(e) => match move_error(
                    result_sigs(old(self)@.results),
                    old(self)@.functions,
                    0,
                ) {
                    Some(e2) => e == e2 && final(self)@ == old(self)@,
                    None => final(self)@ == move_ok_state(old(self)@) && parse_results_seq(
                        move_ok_state(old(self)@).results,
                    ) == Err::<Seq<RoResultView>, ParseError>(e),
                },
            },
    {
        match self.move_funcs() {
            Ok(()) => {},
            Err(e) => {
                return Err(e);
            },
        }
        let ghost rv2 = self.results.deep_view();
        let mut results: Vec<RoResult> = Vec::new();
        let mut i: usize = 0;
        proof {
            assert(rv2.skip(0) =~= rv2);
        }
        while i < self.results.len()
            invariant
                rv2 == self.results.deep_view(),
                final(self)@ == move_ok_state(old(self)@),
                move_error(result_sigs(old(self)@.results), old(self)@.functions, 0) is None,
                i <= rv2.len(),
                (match parse_results_seq(rv2.skip(i as int)) {
                    Ok(rest) => parse_results_seq(rv2) == Ok::<Seq<RoResultView>, ParseError>(
                        results.deep_view() + rest,
                    ),
                    Err(e) => parse_results_seq(rv2) == Err::<Seq<RoResultView>, ParseError>(e),
                }),
            decreases rv2.len() - i,
        {
            let ghost pre = results.deep_view();
            proof {
                assert(rv2.skip(i as int)[0] == rv2[i as int]);
                assert(rv2.skip(i as int).drop_first() =~= rv2.skip(i as int + 1));
            }
            let parsed = match self.results[i].parse() {
                Ok(p) => p,
                Err(e) => {
                    return Err(e);
                },
            };
            results.push(parsed);
            proof {
                let r0 = parse_result(rv2[i as int]).unwrap();
                assert(results.deep_view() =~= pre + seq![r0]);
                if parse_results_seq(rv2.skip(i as int + 1)) is Ok {
                    let rest = parse_results_seq(rv2.skip(i as int + 1)).unwrap();
                    assert((pre + seq![r0]) + rest =~= pre + (seq![r0] + rest));
                }
            }
            i += 1;
        }
        proof {
            assert(rv2.skip(i as int) =~= Seq::<ResultParserView>::empty());
            assert(results.deep_view() + Seq::<RoResultView>::empty() =~= results.deep_view());
        }
        Ok(results)
    }

    /// Assembles the raw program: the move first, then the result groups,
    /// then the remaining top-level functions.
    pub fn parse(&mut self) -> (r: Result<Program, ParseError>)
        ensures
            match r {
                Ok(p) => assemble(old(self)@) == Ok::<ProgramView, ParseError>(p@),
                Err(e) => assemble(old(self)@) == Err::<ProgramView, ParseError>(e),
            },
    {
        let results = match self.parse_results() {
            Ok(v) => v,
            Err(e) => {
                return Err(e);
            },
        };
        let functions = match self.parse_funcs() {
            Ok(v) => v,
            Err(e) => {
                return Err(e);
            },
        };
        let p = Program { results, functions };
        proof {
            assert(p@ =~~= assemble(old(self)@).unwrap());
        }
        Ok(p)
    }
}

} // verus!
