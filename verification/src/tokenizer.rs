//! Lexical analysis: Ro source text to a list of token strings.
//!
//! Tokenization is a single left-to-right character scan with three modes
//! (normal, pending operator, line comment).  Block-comment markers `/*` and
//! `*/` survive this scan as ordinary tokens; a separate token-level pass
//! removes everything between them.  Both passes are specified as folds over
//! the input and the executable functions are proved to compute exactly
//! those folds.

use vstd::prelude::*;

verus! {

/// An ordered list of token strings.  Later stages slice it; no stage
/// mutates a list produced by an earlier one.
pub type TokenList = Vec<String>;

// ---------------------------------------------------------------------------
// The fixed character classes and the operator table.
// ---------------------------------------------------------------------------

/// The characters that end a token and are never part of one.
pub open spec fn spec_whitespace(c: char) -> bool {
    c == ' ' || c == '\n' || c == '\t' || c == '\r'
}

/// The characters that form operator tokens on their own.
pub open spec fn spec_op_char(c: char) -> bool {
    c == '(' || c == ':' || c == ',' || c == '.' || c == ')' || c == '{' || c == '}' || c == '>'
        || c == '=' || c == '+' || c == '-' || c == '*' || c == '/'
}

/// The fixed operator table: every single operator character, plus the four
/// two-character operators.
pub open spec fn spec_operator(t: Seq<char>) -> bool {
    (t.len() == 1 && spec_op_char(t[0])) || t == "=>"@ || t == "//"@ || t == "/*"@ || t == "*/"@
}

// ---------------------------------------------------------------------------
// Specification of the character scan.
// ---------------------------------------------------------------------------

/// What the scanner expects next.
#[derive(Clone, Copy, Debug, PartialEq, Eq, Structural)]
pub enum TokenizerMode {
    /// Discarding characters until the next newline.
    LineComment,
    /// The current token is an operator; any ordinary character ends it.
    Operator,
    /// Accumulating an ordinary token.
    Normal,
}

/// The scanner's full state: the tokens emitted so far, the token being
/// accumulated, and the mode.
#[verifier::ext_equal]
pub struct TokState {
    pub tokens: Seq<Seq<char>>,
    pub cur: Seq<char>,
    pub mode: TokenizerMode,
}

pub open spec fn tok_init() -> TokState {
    TokState { tokens: seq![], cur: seq![], mode: TokenizerMode::Normal }
}

/// One step of the scan: how a single character transforms the state.
pub open spec fn tok_step(st: TokState, c: char) -> TokState {
    if st.mode == TokenizerMode::LineComment {
        if c == '\n' {
            TokState { tokens: st.tokens, cur: st.cur, mode: TokenizerMode::Normal }
        } else {
            st
        }
    } else if spec_whitespace(c) {
        TokState {
            tokens: if st.cur.len() > 0 {
                st.tokens.push(st.cur)
            } else {
                st.tokens
            },
            cur: seq![],
            mode: TokenizerMode::Normal,
        }
    } else if spec_op_char(c) {
        if spec_operator(st.cur.push(c)) {
            if st.cur.push(c) == "//"@ {
                TokState { tokens: st.tokens, cur: seq![], mode: TokenizerMode::LineComment }
            } else {
                TokState { tokens: st.tokens, cur: st.cur.push(c), mode: TokenizerMode::Operator }
            }
        } else {
            TokState { tokens: st.tokens.push(st.cur), cur: seq![c], mode: TokenizerMode::Operator }
        }
    } else if st.mode == TokenizerMode::Operator {
        TokState { tokens: st.tokens.push(st.cur), cur: seq![c], mode: TokenizerMode::Normal }
    } else {
        TokState { tokens: st.tokens, cur: st.cur.push(c), mode: st.mode }
    }
}

/// The scan folded over a whole character sequence.
pub open spec fn tok_run(code: Seq<char>) -> TokState
    decreases code.len(),
{
    if code.len() == 0 {
        tok_init()
    } else {
        tok_step(tok_run(code.drop_last()), code.last())
    }
}

/// At end of input any non-empty pending token is flushed.
pub open spec fn tok_finish(st: TokState) -> Seq<Seq<char>> {
    if st.cur.len() > 0 {
        st.tokens.push(st.cur)
    } else {
        st.tokens
    }
}

/// The tokens of a source text, block-comment markers still included.
pub open spec fn spec_tokenize_raw(code: Seq<char>) -> Seq<Seq<char>> {
    tok_finish(tok_run(code))
}

// ---------------------------------------------------------------------------
// Specification of the block-comment filter.
// ---------------------------------------------------------------------------

/// The tokens kept from position `i` on, given whether the scan is currently
/// inside a block comment.  `/*` turns the flag on, `*/` turns it off — a
/// toggle, not a counter: a second `/*` inside a comment has no effect.
/// Neither marker is ever kept.
pub open spec fn filter_from(tokens: Seq<Seq<char>>, i: int, in_comment: bool) -> Seq<Seq<char>>
    decreases tokens.len() - i,
{
    if i < 0 || i >= tokens.len() {
        seq![]
    } else if tokens[i] == "/*"@ {
        filter_from(tokens, i + 1, true)
    } else if tokens[i] == "*/"@ {
        filter_from(tokens, i + 1, false)
    } else if !in_comment {
        seq![tokens[i]] + filter_from(tokens, i + 1, in_comment)
    } else {
        filter_from(tokens, i + 1, in_comment)
    }
}

/// The block-comment filter over a whole token list.
pub open spec fn spec_remove_block_comments(tokens: Seq<Seq<char>>) -> Seq<Seq<char>> {
    filter_from(tokens, 0, false)
}

/// Both passes composed: the tokens later stages consume.
pub open spec fn spec_tokenize(code: Seq<char>) -> Seq<Seq<char>> {
    spec_remove_block_comments(spec_tokenize_raw(code))
}

// ---------------------------------------------------------------------------
// Executable helpers.
// ---------------------------------------------------------------------------

/// Relies on `String::push`: appends the given character to the end of the
/// string.
#[verifier::external_body]
fn push_char(s: &mut String, c: char)
    ensures
        final(s)@ == old(s)@.push(c),
{
    s.push(c);
}

fn char_is_whitespace(c: char) -> (r: bool)
    ensures
        r == spec_whitespace(c),
{
    c == ' ' || c == '\n' || c == '\t' || c == '\r'
}

fn char_is_op(c: char) -> (r: bool)
    ensures
        r == spec_op_char(c),
{
    c == '(' || c == ':' || c == ',' || c == '.' || c == ')' || c == '{' || c == '}' || c == '>'
        || c == '=' || c == '+' || c == '-' || c == '*' || c == '/'
}

/// Character-by-character string comparison, so that token tests need no
/// trusted equality.
pub(crate) fn str_eq(a: &str, b: &str) -> (r: bool)
    ensures
        r == (a@ == b@),
{
    let la = a.unicode_len();
    let lb = b.unicode_len();
    if la != lb {
        return false;
    }
    let mut i: usize = 0;
    while i < la
        invariant
            i <= la,
            la == a@.len(),
            lb == b@.len(),
            la == lb,
            forall|j: int| 0 <= j < i ==> a@[j] == b@[j],
        decreases la - i,
    {
        if a.get_char(i) != b.get_char(i) {
            return false;
        }
        i += 1;
    }
    proof {
        assert(a@ =~= b@);
    }
    true
}

/// A fresh one-character string.
fn char_string(c: char) -> (s: String)
    ensures
        s@ == seq![c],
{
    let mut s = String::new();
    push_char(&mut s, c);
    proof {
        assert(s@ =~= seq![c]);
    }
    s
}

/// Membership in the fixed operator table.
pub(crate) fn token_is_operator(t: &str) -> (r: bool)
    ensures
        r == spec_operator(t@),
{
    proof {
        reveal_strlit("=>");
        reveal_strlit("//");
        reveal_strlit("/*");
        reveal_strlit("*/");
    }
    let n = t.unicode_len();
    if n == 1 {
        char_is_op(t.get_char(0))
    } else if n == 2 {
        str_eq(t, "=>") || str_eq(t, "//") || str_eq(t, "/*") || str_eq(t, "*/")
    } else {
        false
    }
}

// ---------------------------------------------------------------------------
// The tokenizer.
// ---------------------------------------------------------------------------

/// Converts Ro code into a list of tokens.  Total over any input: tokens
/// never contain whitespace, line comments are discarded, and two-character
/// operators are captured atomically.  Block-comment markers are kept; see
/// `remove_block_comments`.
pub fn tokenize_with_block_comments(code: String) -> (tokens: TokenList)
    ensures
        tokens.deep_view() == spec_tokenize_raw(code@),
{
    let mut tokens: TokenList = Vec::new();
    let mut current_token: String = String::new();
    let mut mode: TokenizerMode = TokenizerMode::Normal;
    let s: &str = code.as_str();
    let n: usize = s.unicode_len();
    let mut i: usize = 0;
    proof {
        assert(code@.subrange(0, 0) =~= Seq::<char>::empty());
        assert((TokState {
            tokens: tokens.deep_view(),
            cur: current_token@,
            mode: mode,
        }) =~~= tok_init());
    }
    while i < n
        invariant
            i <= n,
            n == code@.len(),
            s@ == code@,
            (TokState { tokens: tokens.deep_view(), cur: current_token@, mode: mode }) == tok_run(
                code@.subrange(0, i as int),
            ),
        decreases n - i,
    {
        let ghost pre = TokState { tokens: tokens.deep_view(), cur: current_token@, mode: mode };
        let c = s.get_char(i);
        if mode == TokenizerMode::LineComment {
            // Skip over the rest of the line.
            if c == '\n' {
                mode = TokenizerMode::Normal;
            }
        } else if char_is_whitespace(c) {
            // Whitespace ends the current token.
            if !current_token.as_str().is_empty() {
                tokens.push(current_token);
            }
            current_token = String::new();
            mode = TokenizerMode::Normal;
        } else if char_is_op(c) {
            // The character combined with the current token may still form
            // an operator from the fixed table.
            let mut candidate = current_token.clone();
            push_char(&mut candidate, c);
            if token_is_operator(candidate.as_str()) {
                if str_eq(candidate.as_str(), "//") {
                    // A line comment: discard the marker and the line.
                    current_token = String::new();
                    mode = TokenizerMode::LineComment;
                } else {
                    current_token = candidate;
                    mode = TokenizerMode::Operator;
                }
            } else {
                // Two separate tokens: flush the current one.
                tokens.push(current_token);
                current_token = char_string(c);
                mode = TokenizerMode::Operator;
            }
        } else if mode == TokenizerMode::Operator {
            // An ordinary character ends a pending operator token.
            tokens.push(current_token);
            current_token = char_string(c);
            mode = TokenizerMode::Normal;
        } else {
            push_char(&mut current_token, c);
        }
        proof {
            let cs = code@.subrange(0, i + 1);
            assert(cs.drop_last() =~= code@.subrange(0, i as int));
            assert(cs.last() == code@[i as int]);
            assert((TokState {
                tokens: tokens.deep_view(),
                cur: current_token@,
                mode: mode,
            }) =~~= tok_step(pre, code@[i as int]));
        }
        i += 1;
    }
    proof {
        assert(code@.subrange(0, n as int) =~= code@);
    }
    if !current_token.as_str().is_empty() {
        tokens.push(current_token);
        proof {
            assert(tokens.deep_view() =~~= spec_tokenize_raw(code@));
        }
    }
    tokens
}

/// Removes every token lexically enclosed between `/*` and `*/`, markers
/// included.  The flag is a toggle: block comments do not nest.
pub fn remove_block_comments(tokens: TokenList) -> (r: TokenList)
    ensures
        r.deep_view() == spec_remove_block_comments(tokens.deep_view()),
{
    let ghost toks = tokens.deep_view();
    let mut in_comment: bool = false;
    let mut new_list: TokenList = Vec::new();
    let mut i: usize = 0;
    proof {
        assert(new_list.deep_view() =~= Seq::<Seq<char>>::empty());
    }
    while i < tokens.len()
        invariant
            i <= tokens@.len(),
            toks == tokens.deep_view(),
            new_list.deep_view() + filter_from(toks, i as int, in_comment) == filter_from(
                toks,
                0,
                false,
            ),
        decreases tokens@.len() - i,
    {
        let ghost pre = new_list.deep_view();
        if str_eq(tokens[i].as_str(), "/*") {
            in_comment = true;
        } else if str_eq(tokens[i].as_str(), "*/") {
            in_comment = false;
        } else if !in_comment {
            new_list.push(tokens[i].clone());
            proof {
                assert(new_list.deep_view() =~= pre + seq![toks[i as int]]);
                assert((pre + seq![toks[i as int]]) + filter_from(toks, i + 1, in_comment) =~= pre
                    + (seq![toks[i as int]] + filter_from(toks, i + 1, in_comment)));
            }
        }
        i += 1;
    }
    proof {
        assert(new_list.deep_view() + filter_from(toks, i as int, in_comment)
            =~= new_list.deep_view());
    }
    new_list
}

/// The full lexical stage: tokenize, then strip block comments.
pub fn tokenize(code: String) -> (tokens: TokenList)
    ensures
        tokens.deep_view() == spec_tokenize(code@),
{
    remove_block_comments(tokenize_with_block_comments(code))
}

// ---------------------------------------------------------------------------
// Laws of the block-comment filter.
// ---------------------------------------------------------------------------

/// The filter never emits a block-comment marker.
pub proof fn lemma_filter_no_markers(tokens: Seq<Seq<char>>, i: int, in_comment: bool)
    ensures
        forall|j: int|
            0 <= j < filter_from(tokens, i, in_comment).len() ==> filter_from(
                tokens,
                i,
                in_comment,
            )[j] != "/*"@ && filter_from(tokens, i, in_comment)[j] != "*/"@,
    decreases tokens.len() - i,
{
    if 0 <= i && i < tokens.len() {
        let all = filter_from(tokens, i, in_comment);
        if tokens[i] == "/*"@ {
            lemma_filter_no_markers(tokens, i + 1, true);
            let rest = filter_from(tokens, i + 1, true);
            assert forall|j: int| 0 <= j < all.len() implies all[j] != "/*"@ && all[j]
                != "*/"@ by {
                assert(all[j] == rest[j]);
            }
        } else if tokens[i] == "*/"@ {
            lemma_filter_no_markers(tokens, i + 1, false);
            let rest = filter_from(tokens, i + 1, false);
            assert forall|j: int| 0 <= j < all.len() implies all[j] != "/*"@ && all[j]
                != "*/"@ by {
                assert(all[j] == rest[j]);
            }
        } else {
            lemma_filter_no_markers(tokens, i + 1, in_comment);
            let rest = filter_from(tokens, i + 1, in_comment);
            if !in_comment {
                assert forall|j: int| 0 <= j < all.len() implies all[j] != "/*"@ && all[j]
                    != "*/"@ by {
                    if j > 0 {
                        assert(all[j] == rest[j - 1]);
                    }
                }
            } else {
                assert forall|j: int| 0 <= j < all.len() implies all[j] != "/*"@ && all[j]
                    != "*/"@ by {
                    assert(all[j] == rest[j]);
                }
            }
        }
    }
}

/// On a list without markers the filter keeps everything.
pub proof fn lemma_filter_markerless_identity(tokens: Seq<Seq<char>>, i: int)
    requires
        0 <= i <= tokens.len(),
        forall|j: int| i <= j < tokens.len() ==> tokens[j] != "/*"@ && tokens[j] != "*/"@,
    ensures
        filter_from(tokens, i, false) == tokens.subrange(i, tokens.len() as int),
    decreases tokens.len() - i,
{
    if i < tokens.len() {
        lemma_filter_markerless_identity(tokens, i + 1);
        assert(seq![tokens[i]] + tokens.subrange(i + 1, tokens.len() as int) =~= tokens.subrange(
            i,
            tokens.len() as int,
        ));
    } else {
        assert(filter_from(tokens, i, false) =~= tokens.subrange(i, tokens.len() as int));
    }
}

/// Removing block comments is idempotent: the first pass leaves no marker
/// behind, so a second pass changes nothing.
pub proof fn lemma_remove_block_comments_idempotent(tokens: Seq<Seq<char>>)
    ensures
        spec_remove_block_comments(spec_remove_block_comments(tokens))
            == spec_remove_block_comments(tokens),
{
    let once = spec_remove_block_comments(tokens);
    lemma_filter_no_markers(tokens, 0, false);
    lemma_filter_markerless_identity(once, 0);
    assert(once.subrange(0, once.len() as int) =~= once);
}

// ---------------------------------------------------------------------------
// Law: tokens never contain whitespace.
// ---------------------------------------------------------------------------

/// Every token and the pending token of the scan are free of whitespace.
proof fn lemma_tok_run_ws_free(code: Seq<char>)
    ensures
        forall|t: int, c: int|
            0 <= t < tok_run(code).tokens.len() && 0 <= c < tok_run(code).tokens[t].len()
                ==> !spec_whitespace(tok_run(code).tokens[t][c]),
        forall|c: int|
            0 <= c < tok_run(code).cur.len() ==> !spec_whitespace(tok_run(code).cur[c]),
    decreases code.len(),
{
    if code.len() > 0 {
        lemma_tok_run_ws_free(code.drop_last());
        let st = tok_run(code.drop_last());
        let st2 = tok_run(code);
        assert forall|t: int, c: int|
            0 <= t < st2.tokens.len() && 0 <= c < st2.tokens[t].len() implies !spec_whitespace(
            st2.tokens[t][c],
        ) by {
            if st2.tokens != st.tokens {
                assert(st2.tokens == st.tokens.push(st.cur));
                if t == st.tokens.len() {
                    assert(st2.tokens[t] == st.cur);
                } else {
                    assert(st2.tokens[t] == st.tokens[t]);
                }
            }
        }
    }
}

/// The filter keeps only tokens of its input.
proof fn lemma_filter_ws_free(tokens: Seq<Seq<char>>, i: int, in_comment: bool)
    requires
        forall|j: int, c: int|
            i <= j < tokens.len() && 0 <= c < tokens[j].len() ==> !spec_whitespace(tokens[j][c]),
    ensures
        forall|t: int, c: int|
            0 <= t < filter_from(tokens, i, in_comment).len() && 0 <= c < filter_from(
                tokens,
                i,
                in_comment,
            )[t].len() ==> !spec_whitespace(filter_from(tokens, i, in_comment)[t][c]),
    decreases tokens.len() - i,
{
    if 0 <= i && i < tokens.len() {
        let all = filter_from(tokens, i, in_comment);
        if tokens[i] == "/*"@ {
            lemma_filter_ws_free(tokens, i + 1, true);
            let rest = filter_from(tokens, i + 1, true);
            assert forall|t: int, c: int|
                0 <= t < all.len() && 0 <= c < all[t].len() implies !spec_whitespace(
                all[t][c],
            ) by {
                assert(all[t] == rest[t]);
            }
        } else if tokens[i] == "*/"@ {
            lemma_filter_ws_free(tokens, i + 1, false);
            let rest = filter_from(tokens, i + 1, false);
            assert forall|t: int, c: int|
                0 <= t < all.len() && 0 <= c < all[t].len() implies !spec_whitespace(
                all[t][c],
            ) by {
                assert(all[t] == rest[t]);
            }
        } else {
            lemma_filter_ws_free(tokens, i + 1, in_comment);
            let rest = filter_from(tokens, i + 1, in_comment);
            if !in_comment {
                assert forall|t: int, c: int|
                    0 <= t < all.len() && 0 <= c < all[t].len() implies !spec_whitespace(
                    all[t][c],
                ) by {
                    if t > 0 {
                        assert(all[t] == rest[t - 1]);
                    } else {
                        assert(all[t] == tokens[i]);
                    }
                }
            } else {
                assert forall|t: int, c: int|
                    0 <= t < all.len() && 0 <= c < all[t].len() implies !spec_whitespace(
                    all[t][c],
                ) by {
                    assert(all[t] == rest[t]);
                }
            }
        }
    }
}

/// Tokens never contain whitespace: a whitespace character of the source
/// text only ever separates tokens.
pub proof fn lemma_tokenize_no_whitespace(code: Seq<char>)
    ensures
        forall|t: int, c: int|
            0 <= t < spec_tokenize(code).len() && 0 <= c < spec_tokenize(code)[t].len()
                ==> !spec_whitespace(spec_tokenize(code)[t][c]),
{
    lemma_tok_run_ws_free(code);
    let st = tok_run(code);
    let raw = spec_tokenize_raw(code);
    assert forall|t: int, c: int|
        0 <= t < raw.len() && 0 <= c < raw[t].len() implies !spec_whitespace(raw[t][c]) by {
        if raw != st.tokens {
            assert(raw == st.tokens.push(st.cur));
            if t == st.tokens.len() {
                assert(raw[t] == st.cur);
            } else {
                assert(raw[t] == st.tokens[t]);
            }
        }
    }
    lemma_filter_ws_free(raw, 0, false);
}

// ---------------------------------------------------------------------------
// Law of the tokenizer on operator-free text.
// ---------------------------------------------------------------------------

/// The state of a plain whitespace splitter: the tokens emitted so far and
/// the token being accumulated.
#[verifier::ext_equal]
pub struct WsState {
    pub tokens: Seq<Seq<char>>,
    pub cur: Seq<char>,
}

/// One step of splitting on whitespace: whitespace flushes the current
/// token, any other character extends it.
pub open spec fn ws_step(st: WsState, c: char) -> WsState {
    if spec_whitespace(c) {
        WsState {
            tokens: if st.cur.len() > 0 {
                st.tokens.push(st.cur)
            } else {
                st.tokens
            },
            cur: seq![],
        }
    } else {
        WsState { tokens: st.tokens, cur: st.cur.push(c) }
    }
}

pub open spec fn ws_run(code: Seq<char>) -> WsState
    decreases code.len(),
{
    if code.len() == 0 {
        WsState { tokens: seq![], cur: seq![] }
    } else {
        ws_step(ws_run(code.drop_last()), code.last())
    }
}

/// A text split purely on whitespace runs.
pub open spec fn spec_split_whitespace(code: Seq<char>) -> Seq<Seq<char>> {
    let st = ws_run(code);
    if st.cur.len() > 0 {
        st.tokens.push(st.cur)
    } else {
        st.tokens
    }
}

/// On operator-free text the tokenizer's scan is the whitespace splitter's:
/// the mode stays normal, the states coincide, and every accumulated
/// character is operator-free.
proof fn lemma_tok_run_no_ops(code: Seq<char>)
    requires
        forall|i: int| 0 <= i < code.len() ==> !spec_op_char(code[i]),
    ensures
        tok_run(code).mode == TokenizerMode::Normal,
        tok_run(code).tokens == ws_run(code).tokens,
        tok_run(code).cur == ws_run(code).cur,
        forall|t: int, c: int|
            0 <= t < tok_run(code).tokens.len() && 0 <= c < tok_run(code).tokens[t].len()
                ==> !spec_op_char(tok_run(code).tokens[t][c]),
        forall|c: int| 0 <= c < tok_run(code).cur.len() ==> !spec_op_char(tok_run(code).cur[c]),
    decreases code.len(),
{
    if code.len() > 0 {
        assert(forall|i: int|
            0 <= i < code.drop_last().len() ==> !spec_op_char(code.drop_last()[i]));
        lemma_tok_run_no_ops(code.drop_last());
        let st = tok_run(code.drop_last());
        let c = code.last();
        assert(!spec_op_char(c));
        if spec_whitespace(c) {
        } else {
            assert(tok_run(code).cur == st.cur.push(c));
        }
    }
}

/// For source text made only of ordinary characters and whitespace — no
/// operators, and hence no keywords' special handling, comments or
/// markers — tokenizing splits the text purely on whitespace runs.
pub proof fn lemma_tokenize_splits_on_whitespace(code: Seq<char>)
    requires
        forall|i: int| 0 <= i < code.len() ==> !spec_op_char(code[i]),
    ensures
        spec_tokenize(code) == spec_split_whitespace(code),
{
    lemma_tok_run_no_ops(code);
    let raw = spec_tokenize_raw(code);
    assert(raw == spec_split_whitespace(code));
    reveal_strlit("/*");
    reveal_strlit("*/");
    let st = tok_run(code);
    assert forall|j: int| 0 <= j < raw.len() implies raw[j] != "/*"@ && raw[j] != "*/"@ by {
        if j < st.tokens.len() {
            assert(raw[j] == st.tokens[j]);
            if raw[j] == "/*"@ || raw[j] == "*/"@ {
                assert(!spec_op_char(st.tokens[j][1]));
                assert(spec_op_char('*'));
                assert(spec_op_char('/'));
            }
        } else {
            assert(raw[j] == st.cur);
            if raw[j] == "/*"@ || raw[j] == "*/"@ {
                assert(!spec_op_char(st.cur[1]));
                assert(spec_op_char('*'));
                assert(spec_op_char('/'));
            }
        }
    }
    lemma_filter_markerless_identity(raw, 0);
    assert(raw.subrange(0, raw.len() as int) =~= raw);
}

} // verus!
