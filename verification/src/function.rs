//! Functions: raw blocks, signature parsing, and body parsing into semantic
//! call operations.
//!
//! A raw function block (`FuncParser`) holds the header and body token
//! spans.  Its header parses into a `FuncSig` — name, parameters, return
//! type and owning result group, each optional — and its body into a list
//! of `CallType` operations.  The transient `AssignExpr` form of an
//! assignment is always reduced to `Move` or `Operate` before a `Function`
//! is built.

use vstd::prelude::*;

use crate::blocks::clone_tokens;
use crate::blocks::find_close;
use crate::blocks::find_open;
use crate::blocks::find_close_exec;
use crate::blocks::find_open_exec;
use crate::blocks::lemma_find_close_bounds;
use crate::blocks::lemma_find_open_bounds;
use crate::blocks::subrange_vec;
use crate::params::map_of_entries;
use crate::params::lemma_view_is_entries;
use crate::params::ParamMap;
use crate::tokenizer::spec_operator;
use crate::tokenizer::str_eq;
use crate::tokenizer::token_is_operator;
use crate::tokenizer::TokenList;
use crate::ParseError;

verus! {

// ---------------------------------------------------------------------------
// Raw function blocks.
// ---------------------------------------------------------------------------

/// The mathematical value of a raw function block: its header and body
/// token spans.
#[verifier::ext_equal]
pub struct FuncParserView {
    pub signature: Seq<Seq<char>>,
    pub code: Seq<Seq<char>>,
}

/// A raw function block: the tokens of its header (between `fn` and `{`)
/// and of its body (between the matching braces).
#[derive(Clone, Debug, PartialEq)]
pub struct FuncParser {
    pub signature: TokenList,
    pub code: TokenList,
}

impl View for FuncParser {
    type V = FuncParserView;

    open spec fn view(&self) -> FuncParserView {
        FuncParserView { signature: self.signature.deep_view(), code: self.code.deep_view() }
    }
}

impl DeepView for FuncParser {
    type V = FuncParserView;

    open spec fn deep_view(&self) -> FuncParserView {
        self.view()
    }
}

impl Default for FuncParser {
    /// A block with empty header and body spans.
    fn default() -> (r: Self)
        ensures
            r@.signature.len() == 0,
            r@.code.len() == 0,
    {
        FuncParser { signature: Vec::new(), code: Vec::new() }
    }
}

// ---------------------------------------------------------------------------
// Operations and calls.
// ---------------------------------------------------------------------------

/// The five supported binary operators.
#[derive(Clone, Copy, Debug, PartialEq, Eq, Structural)]
pub enum Operation {
    Add,
    Sub,
    Mult,
    Div,
    Mod,
}

/// The operation a token denotes, if any.
pub open spec fn op_from_token(t: Seq<char>) -> Option<Operation> {
    if t == "+"@ {
        Some(Operation::Add)
    } else if t == "-"@ {
        Some(Operation::Sub)
    } else if t == "*"@ {
        Some(Operation::Mult)
    } else if t == "/"@ {
        Some(Operation::Div)
    } else if t == "%"@ {
        Some(Operation::Mod)
    } else {
        None
    }
}

impl Operation {
    /// Parses a binary-operator token; any other token is an
    /// `UnknownOperator` error.
    pub fn from_str(s: String) -> (r: Result<Operation, ParseError>)
        ensures
            match op_from_token(s@) {
                Some(op) => r == Ok::<Operation, ParseError>(op),
                None => r == Err::<Operation, ParseError>(ParseError::UnknownOperator),
            },
    {
        if str_eq(s.as_str(), "+") {
            Ok(Operation::Add)
        } else if str_eq(s.as_str(), "-") {
            Ok(Operation::Sub)
        } else if str_eq(s.as_str(), "*") {
            Ok(Operation::Mult)
        } else if str_eq(s.as_str(), "/") {
            Ok(Operation::Div)
        } else if str_eq(s.as_str(), "%") {
            Ok(Operation::Mod)
        } else {
            Err(ParseError::UnknownOperator)
        }
    }
}

/// The mathematical value of a call operation.
pub enum CallView {
    Return(Seq<char>),
    Init(Seq<char>),
    AssignExpr(Seq<char>, Seq<Seq<char>>),
    Call(Seq<char>, Seq<Seq<char>>),
    Move(Seq<char>, Seq<char>),
    Operate(Seq<char>, Seq<char>, Operation, Seq<char>),
}

pub type CallList = Vec<CallType>;

/// One semantic operation of a function body.
#[derive(Clone, Debug, PartialEq)]
pub enum CallType {
    /// `return value` or `ret value`.
    Return(String),
    /// `var name`: declare a variable.
    Init(String),
    /// The transient form of an assignment: the destination and the raw
    /// expression span.  Always reduced to `Move` or `Operate` (or, for an
    /// unsupported span shape, omitted) before a `Function` is built.
    AssignExpr(String, TokenList),
    /// `name(arg, ...)`: invoke a function.
    Call(String, Vec<String>),
    /// Assign one value to a destination.
    Move(String, String),
    /// Assign the result of `lhs op rhs` to a destination.
    Operate(String, String, Operation, String),
}

impl View for CallType {
    type V = CallView;

    open spec fn view(&self) -> CallView {
        match self {
            CallType::Return(v) => CallView::Return(v@),
            CallType::Init(n) => CallView::Init(n@),
            CallType::AssignExpr(n, e) => CallView::AssignExpr(n@, e.deep_view()),
            CallType::Call(n, a) => CallView::Call(n@, a.deep_view()),
            CallType::Move(d, s) => CallView::Move(d@, s@),
            CallType::Operate(d, l, op, r) => CallView::Operate(d@, l@, *op, r@),
        }
    }
}

impl DeepView for CallType {
    type V = CallView;

    open spec fn deep_view(&self) -> CallView {
        self.view()
    }
}

// ---------------------------------------------------------------------------
// Signatures.
// ---------------------------------------------------------------------------

/// The mathematical value of a function signature.
#[verifier::ext_equal]
pub struct FuncSigView {
    pub name: Option<Seq<char>>,
    pub parameters: Option<Map<Seq<char>, Seq<char>>>,
    pub return_type: Option<Seq<char>>,
    pub result: Option<Seq<char>>,
}

/// A parsed function signature.  Every part is optional; absent parentheses
/// mean `parameters` is `None`, distinct from an empty list.
#[derive(Clone, Debug, PartialEq)]
pub struct FuncSig {
    pub name: Option<String>,
    pub parameters: Option<ParamMap>,
    pub return_type: Option<String>,
    pub result: Option<String>,
}

impl View for FuncSig {
    type V = FuncSigView;

    open spec fn view(&self) -> FuncSigView {
        FuncSigView {
            name: match self.name {
                Some(s) => Some(s@),
                None => None,
            },
            parameters: match self.parameters {
                Some(m) => Some(m@),
                None => None,
            },
            return_type: match self.return_type {
                Some(s) => Some(s@),
                None => None,
            },
            result: match self.result {
                Some(s) => Some(s@),
                None => None,
            },
        }
    }
}

/// Whether the header's first token is a function name: present and none of
/// the markers that open a later part.
pub open spec fn sig_name_present(tokens: Seq<Seq<char>>) -> bool {
    tokens.len() > 0 && tokens[0] != "("@ && tokens[0] != ":"@ && tokens[0] != "=>"@
}

/// The `name : type` entries collected from position `i` of a parameter
/// list.  Stray commas are skipped; the scan stops at `)` or where fewer
/// than four tokens remain.
pub open spec fn param_entries(tokens: Seq<Seq<char>>, i: int) -> Seq<(Seq<char>, Seq<char>)>
    decreases tokens.len() - i,
{
    if !(0 <= i && i + 3 < tokens.len()) || tokens[i] == ")"@ {
        seq![]
    } else if tokens[i] == ","@ {
        param_entries(tokens, i + 1)
    } else {
        seq![(tokens[i], tokens[i + 2])] + param_entries(tokens, i + 3)
    }
}

/// The position at which the entry scan of `param_entries` stops.
pub open spec fn param_exit(tokens: Seq<Seq<char>>, i: int) -> int
    decreases tokens.len() - i,
{
    if !(0 <= i && i + 3 < tokens.len()) || tokens[i] == ")"@ {
        i
    } else if tokens[i] == ","@ {
        param_exit(tokens, i + 1)
    } else {
        param_exit(tokens, i + 3)
    }
}

/// The position just past the next `)` at or after `i`, or the end of the
/// span when no `)` follows.
pub open spec fn skip_to_close(tokens: Seq<Seq<char>>, i: int) -> int
    decreases tokens.len() - i,
{
    if i < 0 || i >= tokens.len() {
        tokens.len() as int
    } else if tokens[i] == ")"@ {
        i + 1
    } else {
        skip_to_close(tokens, i + 1)
    }
}

/// The function-signature grammar, applied left to right: an optional name,
/// an optional parenthesized parameter list, an optional `: returntype`,
/// and an optional `=> owningresult`.  Total over any header span.
pub open spec fn parse_func_sig(tokens: Seq<Seq<char>>) -> FuncSigView {
    let name = if sig_name_present(tokens) {
        Some(tokens[0])
    } else {
        None
    };
    let p0: int = if sig_name_present(tokens) {
        1
    } else {
        0
    };
    let has_params = p0 < tokens.len() && tokens[p0] == "("@;
    let parameters = if has_params {
        Some(map_of_entries(param_entries(tokens, p0 + 1)))
    } else {
        None
    };
    let q: int = if has_params {
        skip_to_close(tokens, param_exit(tokens, p0 + 1))
    } else {
        p0
    };
    let has_rt = q + 1 < tokens.len() && tokens[q] == ":"@;
    let return_type = if has_rt {
        Some(tokens[q + 1])
    } else {
        None
    };
    let q2: int = if has_rt {
        q + 2
    } else {
        q
    };
    let has_res = q2 + 1 < tokens.len() && tokens[q2] == "=>"@;
    let result = if has_res {
        Some(tokens[q2 + 1])
    } else {
        None
    };
    FuncSigView { name, parameters, return_type, result }
}

impl FuncSig {
    /// Parses a header token span into a signature.  Total: any span parses,
    /// and nothing past its end is ever read.
    pub fn from_tokens(tokens: TokenList) -> (sig: FuncSig)
        ensures
            sig@ == parse_func_sig(tokens.deep_view()),
    {
        let ghost toks = tokens.deep_view();
        let mut token: usize = 0;

        let name: Option<String>;
        if tokens.len() > 0 && !str_eq(tokens[0].as_str(), "(") && !str_eq(
            tokens[0].as_str(),
            ":",
        ) && !str_eq(tokens[0].as_str(), "=>") {
            name = Some(tokens[0].clone());
            token = 1;
        } else {
            name = None;
        }
        proof {
            assert(token as int == (if sig_name_present(toks) {
                1int
            } else {
                0int
            }));
        }
        let ghost p0 = token as int;

        let parameters: Option<ParamMap>;
        if token < tokens.len() && str_eq(tokens[token].as_str(), "(") {
            token += 1;
            let ghost pstart = token as int;
            let mut pm = ParamMap::new();
            let ghost mut eso: Seq<(Seq<char>, Seq<char>)> = seq![];
            loop
                invariant_except_break
                    toks == tokens.deep_view(),
                    token <= toks.len(),
                    param_entries(toks, pstart) == eso + param_entries(toks, token as int),
                    param_exit(toks, pstart) == param_exit(toks, token as int),
                    pm.entry_seq() == eso,
                ensures
                    toks == tokens.deep_view(),
                    pm.entry_seq() == param_entries(toks, pstart),
                    token as int == param_exit(toks, pstart),
                    token <= toks.len(),
                decreases toks.len() - token,
            {
                if tokens.len() - token <= 3 || str_eq(tokens[token].as_str(), ")") {
                    proof {
                        assert(param_entries(toks, token as int) =~= Seq::<(
                            Seq<char>,
                            Seq<char>,
                        )>::empty());
                        assert(eso + param_entries(toks, token as int) =~= eso);
                    }
                    break;
                }
                if str_eq(tokens[token].as_str(), ",") {
                    token += 1;
                    continue;
                }
                let pname = tokens[token].clone();
                let ptype = tokens[token + 2].clone();
                pm.insert(pname, ptype);
                proof {
                    let entry = (toks[token as int], toks[token as int + 2]);
                    assert(eso.push(entry) =~= eso + seq![entry]);
                    assert((eso + seq![entry]) + param_entries(toks, token as int + 3) =~= eso + (
                    seq![entry] + param_entries(toks, token as int + 3)));
                    eso = eso + seq![entry];
                }
                token += 3;
            }
            proof {
                lemma_view_is_entries(&pm);
            }
            // Skip any leftover tokens up to and past the closing `)`.
            let ghost exit0 = token as int;
            loop
                invariant_except_break
                    toks == tokens.deep_view(),
                    token <= toks.len(),
                    skip_to_close(toks, exit0) == skip_to_close(toks, token as int),
                ensures
                    toks == tokens.deep_view(),
                    token as int == skip_to_close(toks, exit0),
                    token <= toks.len(),
                decreases toks.len() - token,
            {
                if token >= tokens.len() {
                    break;
                }
                if str_eq(tokens[token].as_str(), ")") {
                    token += 1;
                    break;
                }
                token += 1;
            }
            parameters = Some(pm);
        } else {
            parameters = None;
        }
        proof {
            assert(token as int == (if p0 < toks.len() && toks[p0] == "("@ {
                skip_to_close(toks, param_exit(toks, p0 + 1))
            } else {
                p0
            }));
        }

        let return_type: Option<String>;
        if tokens.len() - token >= 2 && str_eq(tokens[token].as_str(), ":") {
            return_type = Some(tokens[token + 1].clone());
            token += 2;
        } else {
            return_type = None;
        }

        let result: Option<String>;
        if tokens.len() - token >= 2 && str_eq(tokens[token].as_str(), "=>") {
            result = Some(tokens[token + 1].clone());
        } else {
            result = None;
        }

        let sig = FuncSig { name, parameters, return_type, result };
        proof {
            assert(sig@ =~~= parse_func_sig(toks));
        }
        sig
    }

    /// Parses the header span of a raw block.
    pub fn from_func_parser(parser: FuncParser) -> (sig: FuncSig)
        ensures
            sig@ == parse_func_sig(parser@.signature),
    {
        parser.parse_signature()
    }
}

// ---------------------------------------------------------------------------
// Law: signature parsing round-trips a well-formed header.
// ---------------------------------------------------------------------------

/// The token run of a parameter list written out in full: `p : T` entries
/// with a single comma between consecutive entries.
pub open spec fn canonical_param_tokens(params: Seq<(Seq<char>, Seq<char>)>) -> Seq<Seq<char>>
    decreases params.len(),
{
    if params.len() == 0 {
        seq![]
    } else if params.len() == 1 {
        seq![params[0].0, ":"@, params[0].1]
    } else {
        seq![params[0].0, ":"@, params[0].1, ","@] + canonical_param_tokens(params.drop_first())
    }
}

/// The parameter scan over a canonical list followed by `)` and two more
/// tokens collects exactly the written entries and stops at the `)`.
proof fn lemma_param_scan_canonical(
    header: Seq<Seq<char>>,
    i: int,
    params: Seq<(Seq<char>, Seq<char>)>,
    tail: Seq<Seq<char>>,
)
    requires
        0 <= i <= header.len(),
        tail.len() == 2,
        forall|k: int| 0 <= k < params.len() ==> params[k].0 != ")"@ && params[k].0 != ","@,
        header.subrange(i, header.len() as int) == canonical_param_tokens(params) + seq![")"@]
            + tail,
    ensures
        param_entries(header, i) == params,
        param_exit(header, i) == i + canonical_param_tokens(params).len(),
        header[i + canonical_param_tokens(params).len()] == ")"@,
    decreases params.len(),
{
    let suffix = header.subrange(i, header.len() as int);
    let canon = canonical_param_tokens(params);
    let rhs = canonical_param_tokens(params) + seq![")"@] + tail;
    assert(rhs.len() == canon.len() + 3);
    assert(suffix.len() == header.len() - i);
    assert(header.len() == i + canon.len() + 3);
    if params.len() == 0 {
        assert(rhs[0] == ")"@);
        assert(suffix[0] == header[i + 0]);
        assert(header[i] == ")"@);
        assert(param_entries(header, i) =~= params);
    } else {
        assert(canon[0] == params[0].0);
        assert(canon[1] == ":"@);
        assert(canon[2] == params[0].1);
        assert(rhs[0] == canon[0]);
        assert(rhs[1] == canon[1]);
        assert(rhs[2] == canon[2]);
        assert(suffix[0] == header[i + 0]);
        assert(suffix[1] == header[i + 1]);
        assert(suffix[2] == header[i + 2]);
        assert(header[i] == params[0].0);
        assert(header[i + 1] == ":"@);
        assert(header[i + 2] == params[0].1);
        assert(i + 3 < header.len());
        if params.len() == 1 {
            assert(canon.len() == 3);
            assert(rhs[3] == ")"@);
            assert(suffix[3] == header[i + 3]);
            assert(header[i + 3] == ")"@);
            assert(canonical_param_tokens(params.drop_first()) =~= Seq::<Seq<char>>::empty());
            let rhs2 = canonical_param_tokens(params.drop_first()) + seq![")"@] + tail;
            assert(rhs2.len() == 3);
            assert forall|d: int|
                0 <= d < 3 implies header.subrange(i + 3, header.len() as int)[d] == rhs2[d] by {
                assert(header.subrange(i + 3, header.len() as int)[d] == header[i + 3 + d]);
                assert(suffix[3 + d] == header[i + (3 + d)]);
                assert(suffix[3 + d] == rhs[3 + d]);
                assert(rhs[3 + d] == rhs2[d]);
            }
            assert(header.subrange(i + 3, header.len() as int) =~= rhs2);
            lemma_param_scan_canonical(header, i + 3, params.drop_first(), tail);
            assert(param_entries(header, i) =~= seq![(params[0].0, params[0].1)] + param_entries(
                header,
                i + 3,
            ));
            assert(seq![(params[0].0, params[0].1)] + params.drop_first() =~= params);
        } else {
            assert(canon == seq![params[0].0, ":"@, params[0].1, ","@] + canonical_param_tokens(
                params.drop_first(),
            ));
            assert(canon[3] == ","@);
            assert(rhs[3] == canon[3]);
            assert(suffix[3] == header[i + 3]);
            assert(header[i + 3] == ","@);
            assert(","@ != ")"@) by {
                reveal_strlit(",");
                reveal_strlit(")");
                assert(","@[0] == ',');
                assert(")"@[0] == ')');
            }
            let canon2 = canonical_param_tokens(params.drop_first());
            let rhs2 = canonical_param_tokens(params.drop_first()) + seq![")"@] + tail;
            assert(rhs2.len() == canon2.len() + 3);
            assert(canon.len() == canon2.len() + 4);
            assert forall|d: int|
                0 <= d < rhs2.len() implies header.subrange(i + 4, header.len() as int)[d]
                == rhs2[d] by {
                assert(header.subrange(i + 4, header.len() as int)[d] == header[i + 4 + d]);
                assert(suffix[4 + d] == header[i + (4 + d)]);
                assert(suffix[4 + d] == rhs[4 + d]);
                if d < canon2.len() {
                    assert(canon[4 + d] == canon2[d]);
                    assert(rhs[4 + d] == canon[4 + d]);
                    assert(rhs2[d] == canon2[d]);
                } else {
                    assert(rhs[4 + d] == rhs2[d]);
                }
            }
            assert(header.subrange(i + 4, header.len() as int) =~= rhs2);
            lemma_param_scan_canonical(header, i + 4, params.drop_first(), tail);
            assert(param_entries(header, i + 3) == param_entries(header, i + 4));
            assert(param_exit(header, i + 3) == param_exit(header, i + 4));
            assert(seq![(params[0].0, params[0].1)] + params.drop_first() =~= params);
            assert(param_entries(header, i) =~= seq![(params[0].0, params[0].1)] + param_entries(
                header,
                i + 3,
            ));
        }
    }
}

/// Round-trip: a well-formed header `name ( p : T , ... ) : R` parses back
/// to exactly its name, its parameter mapping, and its return type, with no
/// owner reference.
pub proof fn lemma_func_sig_round_trip(
    name: Seq<char>,
    params: Seq<(Seq<char>, Seq<char>)>,
    ret: Seq<char>,
)
    requires
        name != "("@,
        name != ":"@,
        name != "=>"@,
        forall|k: int| 0 <= k < params.len() ==> params[k].0 != ")"@ && params[k].0 != ","@,
    ensures
        parse_func_sig(seq![name, "("@] + canonical_param_tokens(params) + seq![")"@, ":"@, ret])
            == (FuncSigView {
            name: Some(name),
            parameters: Some(map_of_entries(params)),
            return_type: Some(ret),
            result: None,
        }),
{
    let canon = canonical_param_tokens(params);
    let header = seq![name, "("@] + canon + seq![")"@, ":"@, ret];
    assert(header[0] == name);
    assert(header[1] == "("@);
    assert(sig_name_present(header));
    assert(header.subrange(2, header.len() as int) =~= canon + seq![")"@] + seq![":"@, ret]);
    lemma_param_scan_canonical(header, 2, params, seq![":"@, ret]);
    let exit = param_exit(header, 2);
    assert(exit == 2 + canon.len());
    assert(header[exit] == ")"@);
    assert(skip_to_close(header, exit) == exit + 1);
    let q = exit + 1;
    assert(header[q] == ":"@);
    assert(header[q + 1] == ret);
    assert(q + 1 < header.len());
    assert(q + 2 == header.len());
    assert(parse_func_sig(header) =~~= (FuncSigView {
        name: Some(name),
        parameters: Some(map_of_entries(params)),
        return_type: Some(ret),
        result: None,
    }));
}

// ---------------------------------------------------------------------------
// Body parsing: token span to raw call list.
// ---------------------------------------------------------------------------

/// Whether a token is one of the two return keywords.
pub open spec fn spec_return_kw(t: Seq<char>) -> bool {
    t == "ret"@ || t == "return"@
}

/// The expression tokens absorbed after the value at position `j`: while
/// the next token is an operator, that operator and its right-hand operand
/// are absorbed.  Returns the absorbed tokens and the index of the last
/// consumed token.
pub open spec fn expr_span(tokens: Seq<Seq<char>>, j: int) -> (Seq<Seq<char>>, int)
    decreases tokens.len() - j,
{
    if 0 <= j && j + 1 < tokens.len() && spec_operator(tokens[j + 1]) {
        if j + 2 < tokens.len() {
            let r = expr_span(tokens, j + 2);
            (seq![tokens[j + 1], tokens[j + 2]] + r.0, r.1)
        } else {
            (seq![tokens[j + 1]], j + 1)
        }
    } else {
        (seq![], j)
    }
}

pub proof fn lemma_expr_span_bounds(tokens: Seq<Seq<char>>, j: int)
    requires
        0 <= j,
    ensures
        j <= expr_span(tokens, j).1,
        j < tokens.len() ==> expr_span(tokens, j).1 < tokens.len(),
    decreases tokens.len() - j,
{
    if 0 <= j && j + 1 < tokens.len() && spec_operator(tokens[j + 1]) {
        if j + 2 < tokens.len() {
            lemma_expr_span_bounds(tokens, j + 2);
        }
    }
}

/// The argument tokens of a call collected from position `k`, and the index
/// of the closing `)` — or the end of the span when none follows.  Commas
/// directly after an argument are skipped.
pub open spec fn call_args(tokens: Seq<Seq<char>>, k: int) -> (Seq<Seq<char>>, int)
    decreases tokens.len() - k,
{
    if k < 0 || k >= tokens.len() {
        (seq![], k)
    } else if tokens[k] == ")"@ {
        (seq![], k)
    } else {
        let next = if k + 1 < tokens.len() && tokens[k + 1] == ","@ {
            k + 2
        } else {
            k + 1
        };
        let r = call_args(tokens, next);
        (seq![tokens[k]] + r.0, r.1)
    }
}

pub proof fn lemma_call_args_bounds(tokens: Seq<Seq<char>>, k: int)
    requires
        0 <= k,
    ensures
        k <= call_args(tokens, k).1,
        k <= tokens.len() ==> call_args(tokens, k).1 <= tokens.len(),
    decreases tokens.len() - k,
{
    if k < tokens.len() && tokens[k] != ")"@ {
        let next = if k + 1 < tokens.len() && tokens[k + 1] == ","@ {
            k + 2
        } else {
            k + 1
        };
        lemma_call_args_bounds(tokens, next);
    }
}

/// The raw call operations a body token span denotes from position `i` on:
/// a single left-to-right scan.  `return`/`ret` takes the next token as the
/// returned value; `var` declares a variable and may capture an `=`
/// expression; a bare `name =` captures the same expression shape; and
/// `name (` collects call arguments up to the matching `)`.  A construct
/// cut off by the end of the span emits nothing further.
pub open spec fn calls_from(tokens: Seq<Seq<char>>, i: int) -> Seq<CallView>
    decreases tokens.len() + 1 - i
        via calls_from_decreases
{
    if i < 0 || i >= tokens.len() {
        seq![]
    } else if spec_return_kw(tokens[i]) {
        if i + 1 < tokens.len() {
            seq![CallView::Return(tokens[i + 1])] + calls_from(tokens, i + 2)
        } else {
            seq![]
        }
    } else if tokens[i] == "var"@ {
        if i + 1 < tokens.len() {
            let name = tokens[i + 1];
            if i + 2 < tokens.len() && tokens[i + 2] == "="@ {
                if i + 3 < tokens.len() {
                    let span = seq![tokens[i + 3]] + expr_span(tokens, i + 3).0;
                    seq![CallView::Init(name), CallView::AssignExpr(name, span)] + calls_from(
                        tokens,
                        expr_span(tokens, i + 3).1 + 1,
                    )
                } else {
                    seq![CallView::Init(name)]
                }
            } else {
                seq![CallView::Init(name)] + calls_from(tokens, i + 2)
            }
        } else {
            seq![]
        }
    } else if i + 1 < tokens.len() && tokens[i + 1] == "="@ {
        if i + 2 < tokens.len() {
            let span = seq![tokens[i + 2]] + expr_span(tokens, i + 2).0;
            seq![CallView::AssignExpr(tokens[i], span)] + calls_from(
                tokens,
                expr_span(tokens, i + 2).1 + 1,
            )
        } else {
            seq![]
        }
    } else if i + 1 < tokens.len() && tokens[i + 1] == "("@ {
        seq![CallView::Call(tokens[i], call_args(tokens, i + 2).0)] + calls_from(
            tokens,
            call_args(tokens, i + 2).1 + 1,
        )
    } else {
        calls_from(tokens, i + 1)
    }
}

#[via_fn]
proof fn calls_from_decreases(tokens: Seq<Seq<char>>, i: int) {
    if 0 <= i && i < tokens.len() {
        if i + 3 < tokens.len() {
            lemma_expr_span_bounds(tokens, i + 3);
        }
        if i + 2 < tokens.len() {
            lemma_expr_span_bounds(tokens, i + 2);
            lemma_call_args_bounds(tokens, i + 2);
        }
    }
}

/// Captures the expression span starting at the value token at `start`:
/// the value, then operator/operand pairs as long as an operator follows.
/// Returns the span and the index of the last consumed token.
fn capture_expr(tokens: &TokenList, start: usize) -> (r: (TokenList, usize))
    requires
        start < tokens@.len(),
    ensures
        r.0.deep_view() == seq![tokens.deep_view()[start as int]] + expr_span(
            tokens.deep_view(),
            start as int,
        ).0,
        r.1 as int == expr_span(tokens.deep_view(), start as int).1,
        start <= r.1 < tokens@.len(),
{
    let ghost toks = tokens.deep_view();
    let mut span: TokenList = Vec::new();
    span.push(tokens[start].clone());
    let mut j = start;
    proof {
        lemma_expr_span_bounds(toks, start as int);
        assert(span.deep_view() =~= seq![toks[start as int]]);
    }
    loop
        invariant_except_break
            toks == tokens.deep_view(),
            start <= j < tokens@.len(),
            toks.len() == tokens@.len(),
            span.deep_view() + expr_span(toks, j as int).0 == seq![toks[start as int]] + expr_span(
                toks,
                start as int,
            ).0,
            expr_span(toks, j as int).1 == expr_span(toks, start as int).1,
        ensures
            toks == tokens.deep_view(),
            span.deep_view() == seq![toks[start as int]] + expr_span(toks, start as int).0,
            j as int == expr_span(toks, start as int).1,
            start <= j < toks.len(),
        decreases toks.len() - j,
    {
        if j >= tokens.len() - 1 {
            proof {
                assert(span.deep_view() + expr_span(toks, j as int).0 =~= span.deep_view());
            }
            break;
        }
        if !token_is_operator(tokens[j + 1].as_str()) {
            proof {
                assert(span.deep_view() + expr_span(toks, j as int).0 =~= span.deep_view());
            }
            break;
        }
        let ghost pre = span.deep_view();
        if j + 2 < tokens.len() {
            span.push(tokens[j + 1].clone());
            span.push(tokens[j + 2].clone());
            proof {
                lemma_expr_span_bounds(toks, j as int + 2);
                assert(span.deep_view() =~= pre + seq![toks[j + 1], toks[j + 2]]);
                assert((pre + seq![toks[j + 1], toks[j + 2]]) + expr_span(toks, j as int + 2).0
                    =~= pre + (seq![toks[j + 1], toks[j + 2]] + expr_span(toks, j as int + 2).0));
            }
            j += 2;
        } else {
            span.push(tokens[j + 1].clone());
            proof {
                assert(span.deep_view() =~= pre + seq![toks[j + 1]]);
                assert(expr_span(toks, j as int) == (seq![toks[j + 1]], j as int + 1));
                assert(expr_span(toks, j as int + 1).0 =~= Seq::<Seq<char>>::empty());
                assert((pre + seq![toks[j + 1]]) + expr_span(toks, j as int + 1).0 =~= pre + (seq![
                    toks[j + 1],
                ] + expr_span(toks, j as int + 1).0));
            }
            j += 1;
        }
    }
    (span, j)
}

/// Collects the argument tokens of a call from position `start`, skipping a
/// comma straight after each argument.  Returns the arguments and the index
/// of the closing `)`, or of the end of the span when none follows.
fn collect_args(tokens: &TokenList, start: usize) -> (r: (Vec<String>, usize))
    requires
        start <= tokens@.len(),
    ensures
        r.0.deep_view() == call_args(tokens.deep_view(), start as int).0,
        r.1 as int == call_args(tokens.deep_view(), start as int).1,
        start <= r.1 <= tokens@.len(),
{
    let ghost toks = tokens.deep_view();
    let mut args: Vec<String> = Vec::new();
    let mut k = start;
    proof {
        lemma_call_args_bounds(toks, start as int);
        assert(args.deep_view() =~= Seq::<Seq<char>>::empty());
    }
    loop
        invariant_except_break
            toks == tokens.deep_view(),
            start <= k <= tokens@.len(),
            toks.len() == tokens@.len(),
            args.deep_view() + call_args(toks, k as int).0 == call_args(toks, start as int).0,
            call_args(toks, k as int).1 == call_args(toks, start as int).1,
        ensures
            toks == tokens.deep_view(),
            args.deep_view() == call_args(toks, start as int).0,
            k as int == call_args(toks, start as int).1,
            start <= k <= toks.len(),
        decreases toks.len() - k,
    {
        if k >= tokens.len() {
            proof {
                assert(args.deep_view() + call_args(toks, k as int).0 =~= args.deep_view());
                lemma_call_args_bounds(toks, start as int);
            }
            break;
        }
        if str_eq(tokens[k].as_str(), ")") {
            proof {
                assert(args.deep_view() + call_args(toks, k as int).0 =~= args.deep_view());
            }
            break;
        }
        let ghost pre = args.deep_view();
        args.push(tokens[k].clone());
        proof {
            assert(args.deep_view() =~= pre.push(toks[k as int]));
            assert(pre.push(toks[k as int]) =~= pre + seq![toks[k as int]]);
        }
        if k + 1 < tokens.len() && str_eq(tokens[k + 1].as_str(), ",") {
            proof {
                assert((pre + seq![toks[k as int]]) + call_args(toks, k as int + 2).0 =~= pre + (
                seq![toks[k as int]] + call_args(toks, k as int + 2).0));
            }
            k += 2;
        } else {
            proof {
                assert((pre + seq![toks[k as int]]) + call_args(toks, k as int + 1).0 =~= pre + (
                seq![toks[k as int]] + call_args(toks, k as int + 1).0));
            }
            k += 1;
        }
    }
    (args, k)
}

impl CallType {
    /// Creates the raw list of calls a body token span denotes.
    pub fn vec_from_tokens(tokens: TokenList) -> (calls: Vec<CallType>)
        ensures
            calls.deep_view() == calls_from(tokens.deep_view(), 0),
    {
        let ghost toks = tokens.deep_view();
        let mut calls: Vec<CallType> = Vec::new();
        let mut token: usize = 0;
        proof {
            assert(calls.deep_view() + calls_from(toks, 0) =~= calls_from(toks, 0));
        }
        while token < tokens.len()
            invariant
                toks == tokens.deep_view(),
                calls.deep_view() + calls_from(toks, token as int) == calls_from(toks, 0),
            decreases toks.len() - token,
        {
            let ghost pre = calls.deep_view();
            let ghost i = token as int;
            if str_eq(tokens[token].as_str(), "ret") || str_eq(tokens[token].as_str(), "return") {
                if tokens.len() - token >= 2 {
                    calls.push(CallType::Return(tokens[token + 1].clone()));
                    proof {
                        assert(calls.deep_view() =~= pre + seq![CallView::Return(toks[i + 1])]);
                        assert((pre + seq![CallView::Return(toks[i + 1])]) + calls_from(
                            toks,
                            i + 2,
                        ) =~= pre + (seq![CallView::Return(toks[i + 1])] + calls_from(toks, i + 2)));
                    }
                    token += 2;
                } else {
                    proof {
                        assert(calls.deep_view() + calls_from(toks, i + 1) =~= calls.deep_view()
                            + calls_from(toks, i));
                    }
                    token += 1;
                }
            } else if str_eq(tokens[token].as_str(), "var") {
                if tokens.len() - token >= 2 {
                    let var_name = tokens[token + 1].clone();
                    if tokens.len() - token >= 4 && str_eq(tokens[token + 2].as_str(), "=") {
                        let (set, last) = capture_expr(&tokens, token + 3);
                        calls.push(CallType::Init(var_name.clone()));
                        calls.push(CallType::AssignExpr(var_name, set));
                        proof {
                            let emitted = seq![
                                CallView::Init(toks[i + 1]),
                                CallView::AssignExpr(
                                    toks[i + 1],
                                    seq![toks[i + 3]] + expr_span(toks, i + 3).0,
                                ),
                            ];
                            assert(calls.deep_view() =~= pre + emitted);
                            assert((pre + emitted) + calls_from(toks, last as int + 1) =~= pre + (
                            emitted + calls_from(toks, last as int + 1)));
                        }
                        token = last + 1;
                    } else if tokens.len() - token >= 3 && str_eq(tokens[token + 2].as_str(), "=") {
                        // `var name =` at the very end: the declaration alone.
                        calls.push(CallType::Init(var_name));
                        proof {
                            assert(calls.deep_view() =~= pre + seq![CallView::Init(toks[i + 1])]);
                            assert(calls_from(toks, i) =~= seq![CallView::Init(toks[i + 1])]);
                            assert(calls.deep_view() + calls_from(toks, toks.len() as int) =~= pre
                                + calls_from(toks, i));
                        }
                        token += 3;
                    } else {
                        calls.push(CallType::Init(var_name));
                        proof {
                            assert(calls.deep_view() =~= pre + seq![CallView::Init(toks[i + 1])]);
                            assert((pre + seq![CallView::Init(toks[i + 1])]) + calls_from(
                                toks,
                                i + 2,
                            ) =~= pre + (seq![CallView::Init(toks[i + 1])] + calls_from(
                                toks,
                                i + 2,
                            )));
                        }
                        token += 2;
                    }
                } else {
                    proof {
                        assert(calls.deep_view() + calls_from(toks, i + 1) =~= calls.deep_view()
                            + calls_from(toks, i));
                    }
                    token += 1;
                }
            } else if tokens.len() - token >= 2 && str_eq(tokens[token + 1].as_str(), "=") {
                if tokens.len() - token >= 3 {
                    let var_name = tokens[token].clone();
                    let (set, last) = capture_expr(&tokens, token + 2);
                    calls.push(CallType::AssignExpr(var_name, set));
                    proof {
                        let emitted = seq![
                            CallView::AssignExpr(
                                toks[i],
                                seq![toks[i + 2]] + expr_span(toks, i + 2).0,
                            ),
                        ];
                        assert(calls.deep_view() =~= pre + emitted);
                        assert((pre + emitted) + calls_from(toks, last as int + 1) =~= pre + (
                        emitted + calls_from(toks, last as int + 1)));
                    }
                    token = last + 1;
                } else {
                    proof {
                        assert(calls_from(toks, i) =~= Seq::<CallView>::empty());
                        assert(calls.deep_view() + calls_from(toks, toks.len() as int)
                            =~= calls.deep_view() + calls_from(toks, i));
                    }
                    token += 2;
                }
            } else if tokens.len() - token >= 2 && str_eq(tokens[token + 1].as_str(), "(") {
                let func_name = tokens[token].clone();
                let (args, close) = collect_args(&tokens, token + 2);
                calls.push(CallType::Call(func_name, args));
                let next = if close >= tokens.len() {
                    tokens.len()
                } else {
                    close + 1
                };
                proof {
                    let emitted = seq![CallView::Call(toks[i], call_args(toks, i + 2).0)];
                    assert(calls.deep_view() =~= pre + emitted);
                    assert((pre + emitted) + calls_from(toks, close as int + 1) =~= pre + (emitted
                        + calls_from(toks, close as int + 1)));
                    assert(calls_from(toks, next as int) =~= calls_from(toks, close as int + 1));
                }
                token = next;
            } else {
                token += 1;
            }
        }
        proof {
            assert(calls.deep_view() + calls_from(toks, token as int) =~= calls.deep_view());
        }
        calls
    }
}

// ---------------------------------------------------------------------------
// Reduction: transient assignments to their final form.
// ---------------------------------------------------------------------------

/// Reduces every transient `AssignExpr` to its final form: a one-token span
/// becomes `Move`, a three-token span becomes `Operate` — failing with
/// `UnknownOperator` when its middle token is not an operation — and a span
/// of any other length is an unsupported expression shape whose call is
/// omitted.  All other calls pass through unchanged.
pub open spec fn reduce_calls(calls: Seq<CallView>) -> Result<Seq<CallView>, ParseError>
    decreases calls.len(),
{
    if calls.len() == 0 {
        Ok(seq![])
    } else {
        match calls[0] {
            CallView::AssignExpr(var, span) => {
                if span.len() == 1 {
                    match reduce_calls(calls.drop_first()) {
                        Ok(rest) => Ok(seq![CallView::Move(var, span[0])] + rest),
                        Err(e) => Err(e),
                    }
                } else if span.len() == 3 {
                    match op_from_token(span[1]) {
                        Some(op) => match reduce_calls(calls.drop_first()) {
                            Ok(rest) => Ok(seq![CallView::Operate(var, span[0], op, span[2])]
                                + rest),
                            Err(e) => Err(e),
                        },
                        None => Err(ParseError::UnknownOperator),
                    }
                } else {
                    reduce_calls(calls.drop_first())
                }
            },
            c => match reduce_calls(calls.drop_first()) {
                Ok(rest) => Ok(seq![c] + rest),
                Err(e) => Err(e),
            },
        }
    }
}

/// The full body-parsing pipeline: raw calls, then reduction.
pub open spec fn parse_calls_model(code: Seq<Seq<char>>) -> Result<Seq<CallView>, ParseError> {
    reduce_calls(calls_from(code, 0))
}

/// A reduced call list never contains the transient `AssignExpr` form:
/// `Move` and `Operate` are the only representations of an assignment that
/// a `Function` ever exposes.
pub proof fn lemma_reduce_no_assign_expr(calls: Seq<CallView>)
    ensures
        reduce_calls(calls) matches Ok(out) ==> forall|j: int|
            0 <= j < out.len() ==> !(out[j] is AssignExpr),
    decreases calls.len(),
{
    if calls.len() > 0 {
        lemma_reduce_no_assign_expr(calls.drop_first());
        if reduce_calls(calls) is Ok {
            let out = reduce_calls(calls).unwrap();
            let rest = reduce_calls(calls.drop_first()).unwrap();
            assert forall|j: int| 0 <= j < out.len() implies !(out[j] is AssignExpr) by {
                match calls[0] {
                    CallView::AssignExpr(var, span) => {
                        if span.len() == 1 || span.len() == 3 {
                            if j > 0 {
                                assert(out[j] == rest[j - 1]);
                            }
                        } else {
                            assert(out[j] == rest[j]);
                        }
                    },
                    _ => {
                        if j == 0 {
                            assert(out[0] == calls[0]);
                        } else {
                            assert(out[j] == rest[j - 1]);
                        }
                    },
                }
            }
        }
    }
}

impl CallType {
    /// Converts the transient `AssignExpr` calls of a list to `Operate` and
    /// `Move` calls; all other calls pass through.
    pub fn sets_to_ops(calls: CallList) -> (r: Result<CallList, ParseError>)
        ensures
            match r {
                Ok(v) => reduce_calls(calls.deep_view()) == Ok::<Seq<CallView>, ParseError>(
                    v.deep_view(),
                ),
                Err(e) => reduce_calls(calls.deep_view()) == Err::<Seq<CallView>, ParseError>(e),
            },
    {
        let ghost cvs = calls.deep_view();
        let mut new_calls: CallList = Vec::new();
        let mut i: usize = 0;
        proof {
            assert(cvs.skip(0) =~= cvs);
        }
        while i < calls.len()
            invariant
                cvs == calls.deep_view(),
                i <= cvs.len(),
                reduce_calls(cvs) == (match reduce_calls(cvs.skip(i as int)) {
                    Ok(rest) => Ok::<Seq<CallView>, ParseError>(new_calls.deep_view() + rest),
                    Err(e) => Err::<Seq<CallView>, ParseError>(e),
                }),
            decreases cvs.len() - i,
        {
            let ghost pre = new_calls.deep_view();
            let ghost mut emitted: Seq<CallView> = seq![];
            proof {
                assert(cvs.skip(i as int).len() > 0);
                assert(cvs.skip(i as int)[0] == cvs[i as int]);
                assert(cvs.skip(i as int).drop_first() =~= cvs.skip(i as int + 1));
            }
            match &calls[i] {
                CallType::AssignExpr(var, set_tokens) => {
                    if set_tokens.len() == 1 {
                        new_calls.push(CallType::Move(var.clone(), set_tokens[0].clone()));
                        proof {
                            emitted = seq![CallView::Move(var@, set_tokens.deep_view()[0])];
                        }
                    } else if set_tokens.len() == 3 {
                        match Operation::from_str(set_tokens[1].clone()) {
                            Ok(op) => {
                                new_calls.push(
                                    CallType::Operate(
                                        var.clone(),
                                        set_tokens[0].clone(),
                                        op,
                                        set_tokens[2].clone(),
                                    ),
                                );
                                proof {
                                    emitted = seq![
                                        CallView::Operate(
                                            var@,
                                            set_tokens.deep_view()[0],
                                            op,
                                            set_tokens.deep_view()[2],
                                        ),
                                    ];
                                }
                            },
                            Err(e) => {
                                return Err(e);
                            },
                        }
                    }
                },
                CallType::Return(v) => {
                    new_calls.push(CallType::Return(v.clone()));
                    proof {
                        emitted = seq![cvs[i as int]];
                    }
                },
                CallType::Init(n) => {
                    new_calls.push(CallType::Init(n.clone()));
                    proof {
                        emitted = seq![cvs[i as int]];
                    }
                },
                CallType::Call(n, a) => {
                    new_calls.push(CallType::Call(n.clone(), clone_tokens(a)));
                    proof {
                        emitted = seq![cvs[i as int]];
                    }
                },
                CallType::Move(d, s) => {
                    new_calls.push(CallType::Move(d.clone(), s.clone()));
                    proof {
                        emitted = seq![cvs[i as int]];
                    }
                },
                CallType::Operate(d, l, op, rhs) => {
                    new_calls.push(CallType::Operate(d.clone(), l.clone(), *op, rhs.clone()));
                    proof {
                        emitted = seq![cvs[i as int]];
                    }
                },
            }
            proof {
                assert(new_calls.deep_view() =~= pre + emitted);
                if reduce_calls(cvs.skip(i as int + 1)) is Ok {
                    let rest = reduce_calls(cvs.skip(i as int + 1)).unwrap();
                    assert((pre + emitted) + rest =~= pre + (emitted + rest));
                }
            }
            i += 1;
        }
        proof {
            assert(cvs.skip(i as int).len() == 0);
            assert(cvs.skip(i as int) =~= Seq::<CallView>::empty());
            assert(new_calls.deep_view() + Seq::<CallView>::empty() =~= new_calls.deep_view());
        }
        Ok(new_calls)
    }
}

// ---------------------------------------------------------------------------
// Extraction of `fn` blocks from a token span.
// ---------------------------------------------------------------------------

/// The `fn` blocks found scanning from position `i`: after each `fn`
/// keyword, the header runs to the next `{` and the body to the matching
/// `}`.  A block whose braces never close is an `UnterminatedBlock` error.
pub open spec fn extract_fns(tokens: Seq<Seq<char>>, i: int) -> Result<
    Seq<FuncParserView>,
    ParseError,
>
    decreases tokens.len() - i
        via extract_fns_decreases
{
    if i < 0 || i >= tokens.len() {
        Ok(seq![])
    } else if tokens[i] == "fn"@ {
        match find_open(tokens, i + 1) {
            None => Err(ParseError::UnterminatedBlock),
            Some(o) => match find_close(tokens, o + 1, 1) {
                None => Err(ParseError::UnterminatedBlock),
                Some(c) => match extract_fns(tokens, c + 1) {
                    Ok(rest) => Ok(
                        seq![
                            FuncParserView {
                                signature: tokens.subrange(i + 1, o),
                                code: tokens.subrange(o + 1, c),
                            },
                        ] + rest,
                    ),
                    Err(e) => Err(e),
                },
            },
        }
    } else {
        extract_fns(tokens, i + 1)
    }
}

#[via_fn]
proof fn extract_fns_decreases(tokens: Seq<Seq<char>>, i: int) {
    if 0 <= i && i < tokens.len() && tokens[i] == "fn"@ {
        if find_open(tokens, i + 1) is Some {
            lemma_find_open_bounds(tokens, i + 1);
            let o = find_open(tokens, i + 1).unwrap();
            if find_close(tokens, o + 1, 1) is Some {
                lemma_find_close_bounds(tokens, o + 1, 1);
            }
        }
    }
}

impl FuncParser {
    /// Extracts every `fn` block of a token span, in encounter order.
    pub fn vec_from_tokens(tokens: TokenList) -> (r: Result<Vec<FuncParser>, ParseError>)
        ensures
            match r {
                Ok(v) => extract_fns(tokens.deep_view(), 0) == Ok::<Seq<FuncParserView>, ParseError>(
                    v.deep_view(),
                ),
                Err(e) => extract_fns(tokens.deep_view(), 0) == Err::<
                    Seq<FuncParserView>,
                    ParseError,
                >(e),
            },
    {
        let ghost toks = tokens.deep_view();
        let mut funcs: Vec<FuncParser> = Vec::new();
        let mut token: usize = 0;
        proof {
            assert(funcs.deep_view() + Seq::<FuncParserView>::empty() =~= funcs.deep_view());
        }
        while token < tokens.len()
            invariant
                toks == tokens.deep_view(),
                token <= toks.len(),
                (match extract_fns(toks, token as int) {
                    Ok(rest) => extract_fns(toks, 0) == Ok::<Seq<FuncParserView>, ParseError>(
                        funcs.deep_view() + rest,
                    ),
                    Err(e) => extract_fns(toks, 0) == Err::<Seq<FuncParserView>, ParseError>(e),
                }),
            decreases toks.len() - token,
        {
            if str_eq(tokens[token].as_str(), "fn") {
                let o = match find_open_exec(&tokens, token + 1) {
                    Some(o) => o,
                    None => {
                        return Err(ParseError::UnterminatedBlock);
                    },
                };
                let c = match find_close_exec(&tokens, o + 1) {
                    Some(c) => c,
                    None => {
                        return Err(ParseError::UnterminatedBlock);
                    },
                };
                let signature = subrange_vec(&tokens, token + 1, o);
                let code = subrange_vec(&tokens, o + 1, c);
                let ghost pre = funcs.deep_view();
                let ghost fpv = FuncParserView {
                    signature: toks.subrange(token as int + 1, o as int),
                    code: toks.subrange(o as int + 1, c as int),
                };
                funcs.push(FuncParser { signature, code });
                proof {
                    assert(funcs.deep_view() =~= pre + seq![fpv]);
                    if extract_fns(toks, c as int + 1) is Ok {
                        let rest = extract_fns(toks, c as int + 1).unwrap();
                        assert((pre + seq![fpv]) + rest =~= pre + (seq![fpv] + rest));
                    }
                }
                token = c + 1;
            } else {
                token += 1;
            }
        }
        proof {
            assert(funcs.deep_view() + Seq::<FuncParserView>::empty() =~= funcs.deep_view());
        }
        Ok(funcs)
    }

    /// Tokenizes a source text and extracts its `fn` blocks.
    pub fn vec_from_string(code: String) -> (r: Result<Vec<FuncParser>, ParseError>)
        ensures
            match r {
                Ok(v) => extract_fns(crate::tokenizer::spec_tokenize(code@), 0) == Ok::<
                    Seq<FuncParserView>,
                    ParseError,
                >(v.deep_view()),
                Err(e) => extract_fns(crate::tokenizer::spec_tokenize(code@), 0) == Err::<
                    Seq<FuncParserView>,
                    ParseError,
                >(e),
            },
    {
        let tokens = crate::tokenizer::tokenize(code);
        Self::vec_from_tokens(tokens)
    }

    /// Parses this block's header span into a signature.
    pub fn parse_signature(&self) -> (sig: FuncSig)
        ensures
            sig@ == parse_func_sig(self@.signature),
    {
        FuncSig::from_tokens(clone_tokens(&self.signature))
    }

    /// Parses this block's body span into its final call list.
    pub fn parse_calls(&self) -> (r: Result<CallList, ParseError>)
        ensures
            match r {
                Ok(v) => parse_calls_model(self@.code) == Ok::<Seq<CallView>, ParseError>(
                    v.deep_view(),
                ),
                Err(e) => parse_calls_model(self@.code) == Err::<Seq<CallView>, ParseError>(e),
            },
    {
        CallType::sets_to_ops(CallType::vec_from_tokens(clone_tokens(&self.code)))
    }

    /// Parses this block into a semantic function.
    pub fn parse(self) -> (r: Result<Function, ParseError>)
        ensures
            match r {
                Ok(f) => parse_function(self@) == Ok::<FunctionView, ParseError>(f@),
                Err(e) => parse_function(self@) == Err::<FunctionView, ParseError>(e),
            },
    {
        Function::from_parser(self)
    }
}

// ---------------------------------------------------------------------------
// Semantic functions.
// ---------------------------------------------------------------------------

/// The mathematical value of a semantic function.
#[verifier::ext_equal]
pub struct FunctionView {
    pub signature: FuncSigView,
    pub calls: Seq<CallView>,
}

/// A semantic, backend-facing function: its parsed signature and its call
/// operations, `AssignExpr` already reduced away.
#[derive(Clone, Debug, PartialEq)]
pub struct Function {
    pub signature: FuncSig,
    pub calls: CallList,
}

impl View for Function {
    type V = FunctionView;

    open spec fn view(&self) -> FunctionView {
        FunctionView { signature: self.signature@, calls: self.calls.deep_view() }
    }
}

impl DeepView for Function {
    type V = FunctionView;

    open spec fn deep_view(&self) -> FunctionView {
        self.view()
    }
}

/// What a raw block parses to: its signature and its reduced call list.
pub open spec fn parse_function(p: FuncParserView) -> Result<FunctionView, ParseError> {
    match reduce_calls(calls_from(p.code, 0)) {
        Ok(calls) => Ok(FunctionView { signature: parse_func_sig(p.signature), calls }),
        Err(e) => Err(e),
    }
}

impl Function {
    /// A function from its parts.
    pub fn new(signature: FuncSig, calls: CallList) -> (f: Self)
        ensures
            f@.signature == signature@,
            f@.calls == calls.deep_view(),
    {
        Function { signature, calls }
    }

    /// Parses a raw block: its header into a signature and its body into
    /// the reduced call list.
    pub fn from_parser(parser: FuncParser) -> (r: Result<Self, ParseError>)
        ensures
            match r {
                Ok(f) => parse_function(parser@) == Ok::<FunctionView, ParseError>(f@),
                Err(e) => parse_function(parser@) == Err::<FunctionView, ParseError>(e),
            },
    {
        let signature = parser.parse_signature();
        let calls = match parser.parse_calls() {
            Ok(c) => c,
            Err(e) => {
                return Err(e);
            },
        };
        Ok(Function { signature, calls })
    }
}

} // verus!
