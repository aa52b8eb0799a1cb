//! Balanced-span utilities shared by the structural block extractors: find
//! the next opening brace, find the matching closing brace by depth
//! counting, and copy a token span.

use vstd::prelude::*;

use crate::tokenizer::str_eq;
use crate::tokenizer::TokenList;

verus! {

/// The index of the first `{` at or after `i`, if any.
pub open spec fn find_open(tokens: Seq<Seq<char>>, i: int) -> Option<int>
    decreases tokens.len() - i,
{
    if i < 0 || i >= tokens.len() {
        None
    } else if tokens[i] == "{"@ {
        Some(i)
    } else {
        find_open(tokens, i + 1)
    }
}

pub proof fn lemma_find_open_bounds(tokens: Seq<Seq<char>>, i: int)
    requires
        0 <= i,
        find_open(tokens, i) is Some,
    ensures
        i <= find_open(tokens, i).unwrap() < tokens.len(),
        tokens[find_open(tokens, i).unwrap()] == "{"@,
    decreases tokens.len() - i,
{
    if i < tokens.len() && tokens[i] != "{"@ {
        lemma_find_open_bounds(tokens, i + 1);
    }
}

/// Scanning from position `k` at the given brace depth, the index at which
/// the depth first returns to zero, if any.  `{` raises the depth, `}`
/// lowers it; the index found is the closing `}` itself.
pub open spec fn find_close(tokens: Seq<Seq<char>>, k: int, depth: int) -> Option<int>
    decreases tokens.len() - k,
{
    if k < 0 || k >= tokens.len() {
        None
    } else {
        let d = depth + (if tokens[k] == "{"@ {
            1int
        } else {
            0int
        }) - (if tokens[k] == "}"@ {
            1int
        } else {
            0int
        });
        if d == 0 {
            Some(k)
        } else {
            find_close(tokens, k + 1, d)
        }
    }
}

pub proof fn lemma_find_close_bounds(tokens: Seq<Seq<char>>, k: int, depth: int)
    requires
        0 <= k,
        find_close(tokens, k, depth) is Some,
    ensures
        k <= find_close(tokens, k, depth).unwrap() < tokens.len(),
    decreases tokens.len() - k,
{
    if k < tokens.len() {
        let d = depth + (if tokens[k] == "{"@ {
            1int
        } else {
            0int
        }) - (if tokens[k] == "}"@ {
            1int
        } else {
            0int
        });
        if d != 0 {
            lemma_find_close_bounds(tokens, k + 1, d);
        }
    }
}

/// Scans for the next `{` at or after `start`.
pub(crate) fn find_open_exec(tokens: &TokenList, start: usize) -> (r: Option<usize>)
    ensures
        match r {
            Some(o) => find_open(tokens.deep_view(), start as int) == Some(o as int) && start <= o
                < tokens@.len(),
            None => find_open(tokens.deep_view(), start as int) is None,
        },
{
    let ghost toks = tokens.deep_view();
    let mut i = start;
    while i < tokens.len()
        invariant
            start <= i,
            toks == tokens.deep_view(),
            find_open(toks, start as int) == find_open(toks, i as int),
        decreases tokens@.len() - i,
    {
        if str_eq(tokens[i].as_str(), "{") {
            return Some(i);
        }
        i += 1;
    }
    None
}

/// Scans for the brace that closes a block whose opening `{` stands just
/// before `start`, so the scan begins at depth 1.
pub(crate) fn find_close_exec(tokens: &TokenList, start: usize) -> (r: Option<usize>)
    ensures
        match r {
            Some(c) => find_close(tokens.deep_view(), start as int, 1) == Some(c as int) && start
                <= c < tokens@.len(),
            None => find_close(tokens.deep_view(), start as int, 1) is None,
        },
{
    let ghost toks = tokens.deep_view();
    let mut k = start;
    let mut depth: u128 = 1;
    while k < tokens.len()
        invariant
            start <= k,
            1 <= depth,
            depth as int <= k as int - start as int + 1,
            toks == tokens.deep_view(),
            find_close(toks, start as int, 1) == find_close(toks, k as int, depth as int),
        decreases tokens@.len() - k,
    {
        proof {
            reveal_strlit("{");
            reveal_strlit("}");
        }
        let is_open = str_eq(tokens[k].as_str(), "{");
        let is_close = str_eq(tokens[k].as_str(), "}");
        if is_open {
            depth += 1;
        }
        if is_close {
            depth -= 1;
            if depth == 0 {
                return Some(k);
            }
        }
        k += 1;
    }
    None
}

/// A fresh copy of the token span `[a, b)`.
pub(crate) fn subrange_vec(tokens: &TokenList, a: usize, b: usize) -> (r: TokenList)
    requires
        a <= b <= tokens@.len(),
    ensures
        r.deep_view() == tokens.deep_view().subrange(a as int, b as int),
{
    let ghost toks = tokens.deep_view();
    let mut r: TokenList = Vec::new();
    let mut i = a;
    proof {
        assert(r.deep_view() =~= toks.subrange(a as int, a as int));
    }
    while i < b
        invariant
            a <= i <= b <= tokens@.len(),
            toks == tokens.deep_view(),
            r.deep_view() == toks.subrange(a as int, i as int),
        decreases b - i,
    {
        let ghost pre = r.deep_view();
        r.push(tokens[i].clone());
        proof {
            assert(r.deep_view() =~= pre.push(toks[i as int]));
            assert(pre.push(toks[i as int]) =~= toks.subrange(a as int, i + 1));
        }
        i += 1;
    }
    r
}

/// A fresh copy of a whole token list.
pub(crate) fn clone_tokens(tokens: &TokenList) -> (r: TokenList)
    ensures
        r.deep_view() == tokens.deep_view(),
{
    let r = subrange_vec(tokens, 0, tokens.len());
    proof {
        assert(tokens.deep_view().subrange(0, tokens.deep_view().len() as int)
            =~= tokens.deep_view());
    }
    r
}

} // verus!
