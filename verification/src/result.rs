//! Result groups: named collections of functions sharing a common
//! external-facing signature.
//!
//! A raw result block (`ResultParser`) holds the group's header span and
//! the raw function blocks found inside its body.  The header parses into a
//! `ResultSig` — a mandatory name, a parameter list, and an optional return
//! type — and the function blocks into semantic `Function`s.

use vstd::prelude::*;

use crate::function::parse_function;
use crate::function::Function;
use crate::function::FunctionView;
use crate::function::FuncParser;
use crate::function::FuncParserView;
use crate::params::map_of_entries;
use crate::params::lemma_view_is_entries;
use crate::params::ParamMap;
use crate::tokenizer::str_eq;
use crate::tokenizer::TokenList;
use crate::ParseError;

verus! {

// ---------------------------------------------------------------------------
// Result signatures.
// ---------------------------------------------------------------------------

/// The mathematical value of a result signature.
#[verifier::ext_equal]
pub struct ResultSigView {
    pub name: Seq<char>,
    pub return_type: Option<Seq<char>>,
    pub parameters: Map<Seq<char>, Seq<char>>,
}

/// A parsed result signature: the group's mandatory name, its parameters,
/// and an optional return type.
#[derive(Clone, Debug, PartialEq)]
pub struct ResultSig {
    pub name: String,
    pub return_type: Option<String>,
    pub parameters: ParamMap,
}

impl View for ResultSig {
    type V = ResultSigView;

    open spec fn view(&self) -> ResultSigView {
        ResultSigView {
            name: self.name@,
            return_type: match self.return_type {
                Some(s) => Some(s@),
                None => None,
            },
            parameters: self.parameters@,
        }
    }
}

/// The parameter scan of a result header from position `i`: entries until
/// the closing `)`, or until fewer than three tokens remain.  Commas are
/// skipped.  `None` marks a header so short that the scan would read past
/// its end.
pub open spec fn rsig_scan(tokens: Seq<Seq<char>>, i: int) -> Option<
    (Seq<(Seq<char>, Seq<char>)>, int),
>
    decreases tokens.len() - i,
{
    if i < 0 || i >= tokens.len() {
        None
    } else if tokens[i] == ")"@ {
        Some((seq![], i))
    } else if i >= tokens.len() - 2 {
        Some((seq![], i))
    } else if tokens[i] == ","@ {
        rsig_scan(tokens, i + 1)
    } else {
        match rsig_scan(tokens, i + 3) {
            Some(r) => Some((seq![(tokens[i], tokens[i + 2])] + r.0, r.1)),
            None => None,
        }
    }
}

/// The result-signature grammar: the first token is the mandatory name, the
/// parameter list begins at fixed offset 2, and a `:` straight after the
/// closing `)` introduces the return type.  A header too short for this
/// shape is a `MalformedSignature` error.
pub open spec fn parse_result_sig(tokens: Seq<Seq<char>>) -> Result<ResultSigView, ParseError> {
    if tokens.len() == 0 {
        Err(ParseError::MalformedSignature)
    } else {
        match rsig_scan(tokens, 2) {
            None => Err(ParseError::MalformedSignature),
            Some((entries, exit)) => {
                let rt = if exit < tokens.len() - 2 && tokens[exit + 1] == ":"@ {
                    Some(tokens[exit + 2])
                } else {
                    None
                };
                Ok(
                    ResultSigView {
                        name: tokens[0],
                        return_type: rt,
                        parameters: map_of_entries(entries),
                    },
                )
            },
        }
    }
}

impl ResultSig {
    /// Parses a result header token span.
    pub fn from_tokens(tokens: TokenList) -> (r: Result<ResultSig, ParseError>)
        ensures
            match r {
                Ok(sig) => parse_result_sig(tokens.deep_view()) == Ok::<ResultSigView, ParseError>(
                    sig@,
                ),
                Err(e) => parse_result_sig(tokens.deep_view()) == Err::<ResultSigView, ParseError>(
                    e,
                ),
            },
    {
        let ghost toks = tokens.deep_view();
        if tokens.len() == 0 {
            return Err(ParseError::MalformedSignature);
        }
        let name = tokens[0].clone();
        let mut parameters = ParamMap::new();
        let mut token: usize = 2;
        let ghost mut eso: Seq<(Seq<char>, Seq<char>)> = seq![];
        loop
            invariant_except_break
                toks == tokens.deep_view(),
                toks.len() == tokens@.len(),
                2 <= token,
                (match rsig_scan(toks, token as int) {
                    Some(r) => rsig_scan(toks, 2) == Some((eso + r.0, r.1)),
                    None => rsig_scan(toks, 2) is None,
                }),
                parameters.entry_seq() == eso,
            ensures
                toks == tokens.deep_view(),
                rsig_scan(toks, 2) is Some,
                parameters.entry_seq() == rsig_scan(toks, 2).unwrap().0,
                token as int == rsig_scan(toks, 2).unwrap().1,
                token < toks.len(),
            decreases toks.len() - token,
        {
            if token >= tokens.len() {
                return Err(ParseError::MalformedSignature);
            }
            if str_eq(tokens[token].as_str(), ")") {
                proof {
                    assert(eso + rsig_scan(toks, token as int).unwrap().0 =~= eso);
                }
                break;
            }
            if tokens.len() - token <= 2 {
                proof {
                    assert(eso + rsig_scan(toks, token as int).unwrap().0 =~= eso);
                }
                break;
            }
            if str_eq(tokens[token].as_str(), ",") {
                token += 1;
                continue;
            }
            let pname = tokens[token].clone();
            let ptype = tokens[token + 2].clone();
            parameters.insert(pname, ptype);
            proof {
                let entry = (toks[token as int], toks[token as int + 2]);
                assert(eso.push(entry) =~= eso + seq![entry]);
                if rsig_scan(toks, token as int + 3) is Some {
                    let r = rsig_scan(toks, token as int + 3).unwrap();
                    assert((eso + seq![entry]) + r.0 =~= eso + (seq![entry] + r.0));
                }
                eso = eso + seq![entry];
            }
            token += 3;
        }
        let return_type: Option<String>;
        if tokens.len() - token > 2 && str_eq(tokens[token + 1].as_str(), ":") {
            return_type = Some(tokens[token + 2].clone());
        } else {
            return_type = None;
        }
        proof {
            lemma_view_is_entries(&parameters);
        }
        let sig = ResultSig { name, return_type, parameters };
        proof {
            assert(sig@ =~~= parse_result_sig(toks).unwrap());
        }
        Ok(sig)
    }

    /// Parses the header span of a raw result block.
    pub fn from_result_parser(parser: ResultParser) -> (r: Result<ResultSig, ParseError>)
        ensures
            match r {
                Ok(sig) => parse_result_sig(parser@.signature) == Ok::<ResultSigView, ParseError>(
                    sig@,
                ),
                Err(e) => parse_result_sig(parser@.signature) == Err::<ResultSigView, ParseError>(
                    e,
                ),
            },
    {
        parser.parse_signature()
    }
}

// ---------------------------------------------------------------------------
// Raw result blocks and semantic result groups.
// ---------------------------------------------------------------------------

/// The mathematical value of a raw result block.
#[verifier::ext_equal]
pub struct ResultParserView {
    pub signature: Seq<Seq<char>>,
    pub functions: Seq<FuncParserView>,
}

/// A raw result block: its header span and the raw function blocks found
/// inside its body.
#[derive(Clone, Debug, PartialEq)]
pub struct ResultParser {
    pub signature: TokenList,
    pub functions: Vec<FuncParser>,
}

impl View for ResultParser {
    type V = ResultParserView;

    open spec fn view(&self) -> ResultParserView {
        ResultParserView {
            signature: self.signature.deep_view(),
            functions: self.functions.deep_view(),
        }
    }
}

impl DeepView for ResultParser {
    type V = ResultParserView;

    open spec fn deep_view(&self) -> ResultParserView {
        self.view()
    }
}

/// The mathematical value of a semantic result group.
#[verifier::ext_equal]
pub struct RoResultView {
    pub signature: ResultSigView,
    pub functions: Seq<FunctionView>,
}

/// A semantic result group: its parsed signature and its functions.
#[derive(Clone, Debug, PartialEq)]
pub struct RoResult {
    pub signature: ResultSig,
    pub functions: Vec<Function>,
}

impl View for RoResult {
    type V = RoResultView;

    open spec fn view(&self) -> RoResultView {
        RoResultView {
            signature: self.signature@,
            functions: self.functions.deep_view(),
        }
    }
}

impl DeepView for RoResult {
    type V = RoResultView;

    open spec fn deep_view(&self) -> RoResultView {
        self.view()
    }
}

/// What a sequence of raw function blocks parses to: the first failure, or
/// all of them as semantic functions, in order.
pub open spec fn parse_functions(funcs: Seq<FuncParserView>) -> Result<
    Seq<FunctionView>,
    ParseError,
>
    decreases funcs.len(),
{
    if funcs.len() == 0 {
        Ok(seq![])
    } else {
        match parse_function(funcs[0]) {
            Ok(f) => match parse_functions(funcs.drop_first()) {
                Ok(rest) => Ok(seq![f] + rest),
                Err(e) => Err(e),
            },
            Err(e) => Err(e),
        }
    }
}

/// What a raw result block parses to: its signature, then its functions.
pub open spec fn parse_result(r: ResultParserView) -> Result<RoResultView, ParseError> {
    match parse_result_sig(r.signature) {
        Ok(signature) => match parse_functions(r.functions) {
            Ok(functions) => Ok(RoResultView { signature, functions }),
            Err(e) => Err(e),
        },
        Err(e) => Err(e),
    }
}

/// Parses each raw function block of a list, stopping at the first failure.
pub(crate) fn parse_funcs_vec(funcs: &Vec<FuncParser>) -> (r: Result<Vec<Function>, ParseError>)
    ensures
        match r {
            Ok(v) => parse_functions(funcs.deep_view()) == Ok::<Seq<FunctionView>, ParseError>(
                v.deep_view(),
            ),
            Err(e) => parse_functions(funcs.deep_view()) == Err::<Seq<FunctionView>, ParseError>(e),
        },
{
    let ghost fvs = funcs.deep_view();
    let mut out: Vec<Function> = Vec::new();
    let mut i: usize = 0;
    proof {
        assert(fvs.skip(0) =~= fvs);
    }
    while i < funcs.len()
        invariant
            fvs == funcs.deep_view(),
            i <= fvs.len(),
            (match parse_functions(fvs.skip(i as int)) {
                Ok(rest) => parse_functions(fvs) == Ok::<Seq<FunctionView>, ParseError>(
                    out.deep_view() + rest,
                ),
                Err(e) => parse_functions(fvs) == Err::<Seq<FunctionView>, ParseError>(e),
            }),
        decreases fvs.len() - i,
    {
        let ghost pre = out.deep_view();
        proof {
            assert(fvs.skip(i as int).len() > 0);
            assert(fvs.skip(i as int)[0] == fvs[i as int]);
            assert(fvs.skip(i as int).drop_first() =~= fvs.skip(i as int + 1));
        }
        let sig = funcs[i].parse_signature();
        let calls = match funcs[i].parse_calls() {
            Ok(c) => c,
            Err(e) => {
                return Err(e);
            },
        };
        out.push(Function::new(sig, calls));
        proof {
            let f = parse_function(fvs[i as int]).unwrap();
            assert(out.deep_view() =~= pre + seq![f]);
            if parse_functions(fvs.skip(i as int + 1)) is Ok {
                let rest = parse_functions(fvs.skip(i as int + 1)).unwrap();
                assert((pre + seq![f]) + rest =~= pre + (seq![f] + rest));
            }
        }
        i += 1;
    }
    proof {
        assert(fvs.skip(i as int) =~= Seq::<FuncParserView>::empty());
        assert(out.deep_view() + Seq::<FunctionView>::empty() =~= out.deep_view());
    }
    Ok(out)
}

impl ResultParser {
    /// Parses this block's header span into a result signature.
    pub fn parse_signature(&self) -> (r: Result<ResultSig, ParseError>)
        ensures
            match r {
                Ok(sig) => parse_result_sig(self@.signature) == Ok::<ResultSigView, ParseError>(
                    sig@,
                ),
                Err(e) => parse_result_sig(self@.signature) == Err::<ResultSigView, ParseError>(e),
            },
    {
        ResultSig::from_tokens(crate::blocks::clone_tokens(&self.signature))
    }

    /// Parses this block's function blocks into semantic functions.
    pub fn parse_funcs(&self) -> (r: Result<Vec<Function>, ParseError>)
        ensures
            match r {
                Ok(v) => parse_functions(self@.functions) == Ok::<Seq<FunctionView>, ParseError>(
                    v.deep_view(),
                ),
                Err(e) => parse_functions(self@.functions) == Err::<Seq<FunctionView>, ParseError>(
                    e,
                ),
            },
    {
        parse_funcs_vec(&self.functions)
    }

    /// Converts this raw block to a semantic result group.
    pub fn parse(&self) -> (r: Result<RoResult, ParseError>)
        ensures
            match r {
                Ok(res) => parse_result(self@) == Ok::<RoResultView, ParseError>(res@),
                Err(e) => parse_result(self@) == Err::<RoResultView, ParseError>(e),
            },
    {
        let signature = match self.parse_signature() {
            Ok(s) => s,
            Err(e) => {
                return Err(e);
            },
        };
        let functions = match self.parse_funcs() {
            Ok(f) => f,
            Err(e) => {
                return Err(e);
            },
        };
        Ok(RoResult { signature, functions })
    }
}

} // verus!
