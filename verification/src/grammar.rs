use crate::cst::{
    Cst, CstV, Leaf, LeafV, ModifierNode, ModifierNodeV, ModifiersNode, ModifiersNodeV, RootNode,
    RepetitionNode, RepetitionNodeV, RootNodeV, Rule, SpellChildV, SpellNode, SpellNodeV,
    SpellChild, SpellTypeParamsChild,
    SpellTypeParamsChildV, SpellTypeParamsNode, SpellTypeParamsNodeV, ExecutableParamsChild,
    ExecutableParamsChildV, ExecutableParamsNode, ExecutableParamsNodeV,
};
use vstd::prelude::*;

verus! {

/// The rule a rejected input failed to match, reported with the offset of
/// the offending position.
#[derive(Clone, Copy, Debug, PartialEq, Eq, Structural)]
pub enum Expected {
    InvokeWord,
    KeywordTo,
    KeywordAnd,
    KeywordOfTimes,
    SpellType,
    Executable,
    Modifier,
    ConditionText,
    DurationText,
}

/// A grammar-level rejection: the input does not match the `spells` rule.
#[derive(Clone, Copy, Debug, PartialEq, Eq, Structural)]
pub struct SyntaxError {
    /// Character offset of the position that failed to match.
    pub offset: usize,
    /// The rule that was expected at that position.
    pub expected: Expected,
}

/// One source token: a maximal run of non-whitespace characters, identified
/// by its character offsets `[start, end)` into the input text.
#[derive(Clone, Copy, PartialEq, Eq, Structural, Debug)]
pub struct Token {
    pub start: usize,
    pub end: usize,
}

/// Characters that separate tokens.
pub open spec fn is_space_char(c: char) -> bool {
    c == ' ' || c == '\n' || c == '\t' || c == '\r'
}

/// The text a token covers in the input `s`.
pub open spec fn tok_text(s: Seq<char>, t: Token) -> Seq<char> {
    s.subrange(t.start as int, t.end as int)
}

/// The tokens of `s`: every maximal run of non-whitespace characters, in
/// source order, as offset pairs. Defined by recursion on the last character:
/// a space ends the current run, a non-space character either extends a run
/// that reaches up to it or starts a new one.
pub open spec fn spec_tokenize(s: Seq<char>) -> Seq<Token>
    decreases s.len(),
{
    if s.len() == 0 {
        Seq::empty()
    } else {
        let prev = spec_tokenize(s.drop_last());
        let n = s.len() - 1;
        if is_space_char(s.last()) {
            prev
        } else if prev.len() > 0 && prev.last().end == n {
            prev.update(prev.len() - 1, Token { start: prev.last().start, end: (n + 1) as usize })
        } else {
            prev.push(Token { start: n as usize, end: (n + 1) as usize })
        }
    }
}

/// Tokens are non-empty, lie inside `s`, and appear in strictly increasing
/// disjoint positions.
pub open spec fn tokens_wf(s: Seq<char>, toks: Seq<Token>) -> bool {
    &&& forall|k: int|
        0 <= k < toks.len() ==> (#[trigger] toks[k]).start < toks[k].end <= s.len()
    &&& forall|j: int, k: int|
        0 <= j < k < toks.len() ==> (#[trigger] toks[j]).end <= (#[trigger] toks[k]).start
}

pub proof fn lemma_tokenize_wf(s: Seq<char>)
    requires
        s.len() <= usize::MAX,
    ensures
        tokens_wf(s, spec_tokenize(s)),
    decreases s.len(),
{
    if s.len() == 0 {
    } else {
        let prev = spec_tokenize(s.drop_last());
        let toks = spec_tokenize(s);
        let n = s.len() - 1;
        lemma_tokenize_wf(s.drop_last());
        assert(s.drop_last().len() == n);
        if is_space_char(s.last()) {
        } else if prev.len() > 0 && prev.last().end == n {
            let m = prev.len() - 1;
            assert(forall|k: int| 0 <= k < toks.len() && k != m ==> toks[k] == prev[k]);
            assert(toks[m].start == prev[m].start && toks[m].end == n + 1);
        } else {
            assert(forall|k: int| 0 <= k < prev.len() ==> toks[k] == prev[k]);
            assert(toks[prev.len() as int] == Token { start: n as usize, end: (n + 1) as usize });
        }
    }
}

/// Splits the input into whitespace-separated tokens, left to right.
pub fn tokenize(input: &str) -> (toks: Vec<Token>)
    ensures
        toks@ == spec_tokenize(input@),
{
    let n = input.unicode_len();
    let mut toks: Vec<Token> = Vec::new();
    let mut i: usize = 0;
    while i < n
        invariant
            n == input@.len(),
            i <= n,
            toks@ == spec_tokenize(input@.take(i as int)),
        decreases n - i,
    {
        let c = input.get_char(i);
        proof {
            assert(input@.take(i + 1 as int).drop_last() =~= input@.take(i as int));
            assert(input@.take(i + 1 as int).last() == input@[i as int]);
        }
        if is_space(c) {
        } else {
            let m = toks.len();
            if m > 0 && toks[m - 1].end == i {
                let last = toks[m - 1];
                toks.pop();
                toks.push(Token { start: last.start, end: i + 1 });
                proof {
                    let prev = spec_tokenize(input@.take(i as int));
                    assert(toks@ =~= prev.update(
                        prev.len() - 1,
                        Token { start: last.start, end: (i + 1) as usize },
                    ));
                }
            } else {
                toks.push(Token { start: i, end: i + 1 });
            }
        }
        i += 1;
    }
    proof {
        assert(input@.take(n as int) =~= input@);
    }
    toks
}

fn is_space(c: char) -> (r: bool)
    ensures
        r == is_space_char(c),
{
    c == ' ' || c == '\n' || c == '\t' || c == '\r'
}

// ---------------------------------------------------------------------------
// Token classification. The keywords are reserved: none of them can serve as
// an adjective, a spell type or an executable word.
// ---------------------------------------------------------------------------

pub open spec fn is_digit_char(c: char) -> bool {
    '0' as u32 <= c as u32 && c as u32 <= '9' as u32
}

/// The leading keywords that may open a statement.
pub open spec fn is_invoke_text(t: Seq<char>) -> bool {
    t == "cast"@ || t == "invoke"@
}

/// Every reserved keyword of the language.
pub open spec fn is_keyword_text(t: Seq<char>) -> bool {
    ||| is_invoke_text(t)
    ||| t == "to"@
    ||| t == "also"@
    ||| t == "and"@
    ||| t == "if"@
    ||| t == "for"@
    ||| t == "of"@
    ||| t == "times"@
    ||| t == "apply"@
}

pub open spec fn is_number_text(t: Seq<char>) -> bool {
    t.len() > 0 && forall|i: int| 0 <= i < t.len() ==> is_digit_char(#[trigger] t[i])
}

/// A free-form word: non-empty, neither a keyword nor a number.
pub open spec fn is_word_text(t: Seq<char>) -> bool {
    t.len() > 0 && !is_keyword_text(t) && !is_number_text(t)
}

/// The verbatim text from the start of token `a` to the end of token `b`.
pub open spec fn span_text(s: Seq<char>, a: Token, b: Token) -> Seq<char> {
    s.subrange(a.start as int, b.end as int)
}

fn is_digit(c: char) -> (r: bool)
    ensures
        r == is_digit_char(c),
{
    let u = c as u32;
    u >= '0' as u32 && u <= '9' as u32
}

/// Compares a token's text with a keyword.
fn tok_eq(input: &str, t: Token, kw: &str) -> (r: bool)
    requires
        t.start < t.end <= input@.len(),
    ensures
        r == (tok_text(input@, t) == kw@),
{
    let klen = kw.unicode_len();
    if t.end - t.start != klen {
        proof {
            assert(tok_text(input@, t).len() == t.end - t.start);
        }
        return false;
    }
    let mut i: usize = 0;
    while i < klen
        invariant
            t.start < t.end <= input@.len(),
            klen == kw@.len(),
            t.end - t.start == klen,
            i <= klen,
            forall|j: int| 0 <= j < i ==> input@[t.start + j] == kw@[j],
        decreases klen - i,
    {
        let a = input.get_char(t.start + i);
        let b = kw.get_char(i);
        if a != b {
            proof {
                assert(tok_text(input@, t)[i as int] == input@[t.start + i]);
            }
            return false;
        }
        i += 1;
    }
    proof {
        assert(tok_text(input@, t) =~= kw@);
    }
    true
}

fn tok_is_number(input: &str, t: Token) -> (r: bool)
    requires
        t.start < t.end <= input@.len(),
    ensures
        r == is_number_text(tok_text(input@, t)),
{
    let mut i: usize = t.start;
    while i < t.end
        invariant
            t.start < t.end <= input@.len(),
            t.start <= i <= t.end,
            forall|j: int| t.start <= j < i ==> is_digit_char(#[trigger] input@[j]),
        decreases t.end - i,
    {
        let c = input.get_char(i);
        if !is_digit(c) {
            proof {
                assert(tok_text(input@, t)[i - t.start] == input@[i as int]);
            }
            return false;
        }
        i += 1;
    }
    proof {
        assert forall|j: int| 0 <= j < tok_text(input@, t).len() implies is_digit_char(
            tok_text(input@, t)[j],
        ) by {
            assert(tok_text(input@, t)[j] == input@[t.start + j]);
        }
    }
    true
}

fn tok_is_invoke(input: &str, t: Token) -> (r: bool)
    requires
        t.start < t.end <= input@.len(),
    ensures
        r == is_invoke_text(tok_text(input@, t)),
{
    tok_eq(input, t, "cast") || tok_eq(input, t, "invoke")
}

fn tok_is_keyword(input: &str, t: Token) -> (r: bool)
    requires
        t.start < t.end <= input@.len(),
    ensures
        r == is_keyword_text(tok_text(input@, t)),
{
    tok_is_invoke(input, t) || tok_eq(input, t, "to") || tok_eq(input, t, "also") || tok_eq(
        input,
        t,
        "and",
    ) || tok_eq(input, t, "if") || tok_eq(input, t, "for") || tok_eq(input, t, "of") || tok_eq(
        input,
        t,
        "times",
    ) || tok_eq(input, t, "apply")
}

fn tok_is_word(input: &str, t: Token) -> (r: bool)
    requires
        t.start < t.end <= input@.len(),
    ensures
        r == is_word_text(tok_text(input@, t)),
{
    proof {
        assert(tok_text(input@, t).len() > 0);
    }
    !tok_is_keyword(input, t) && !tok_is_number(input, t)
}

/// Copies the verbatim text from the start of `a` to the end of `b`.
fn span_string(input: &str, a: Token, b: Token) -> (r: String)
    requires
        a.start < a.end <= input@.len(),
        b.start < b.end <= input@.len(),
        a.start <= b.start,
        a.end <= b.end,
    ensures
        r@ == span_text(input@, a, b),
{
    let s = input.substring_char(a.start, b.end);
    s.to_owned()
}

/// Copies one token's text.
fn token_string(input: &str, t: Token) -> (r: String)
    requires
        t.start < t.end <= input@.len(),
    ensures
        r@ == tok_text(input@, t),
{
    span_string(input, t, t)
}

// ---------------------------------------------------------------------------
// The grammar over the token sequence, as spec-level recognition functions.
// Each executable parse function below is proved to return exactly what these
// define.
// ---------------------------------------------------------------------------

/// First position at or after `i` whose token is the keyword `to`; the token
/// count if there is none.
pub open spec fn scan_for_to(s: Seq<char>, toks: Seq<Token>, i: int) -> int
    decreases toks.len() - i,
{
    if i < 0 || i >= toks.len() {
        toks.len() as int
    } else if tok_text(s, toks[i]) == "to"@ {
        i
    } else {
        scan_for_to(s, toks, i + 1)
    }
}

/// A token that ends an executable clause: the join keyword `also`, or the
/// leading keyword of the next statement.
pub open spec fn is_clause_end_text(t: Seq<char>) -> bool {
    t == "also"@ || is_invoke_text(t)
}

/// First position at or after `i` whose token ends an executable clause; the
/// token count if there is none.
pub open spec fn scan_clause_end(s: Seq<char>, toks: Seq<Token>, i: int) -> int
    decreases toks.len() - i,
{
    if i < 0 || i >= toks.len() {
        toks.len() as int
    } else if is_clause_end_text(tok_text(s, toks[i])) {
        i
    } else {
        scan_clause_end(s, toks, i + 1)
    }
}

/// First position in `[i, hi)` whose token is the conjunction `and`; `hi` if
/// there is none.
pub open spec fn scan_for_and(s: Seq<char>, toks: Seq<Token>, i: int, hi: int) -> int
    decreases hi - i,
{
    if i < 0 || i >= hi {
        hi
    } else if tok_text(s, toks[i]) == "and"@ {
        i
    } else {
        scan_for_and(s, toks, i + 1, hi)
    }
}

/// The offset reported for a rejection at token position `a`: that token's
/// start, or the input's end when the tokens are exhausted.
pub open spec fn spec_offset_at(s: Seq<char>, toks: Seq<Token>, a: int) -> usize {
    if 0 <= a < toks.len() {
        toks[a].start
    } else {
        s.len() as usize
    }
}

/// One modifier starting at `p` within the token range `[p, hi)`:
/// `if` followed by free words up to `and` marks a condition, `for` likewise
/// a duration, a number followed by `of times` a repetition, and a bare free
/// word an adjective. Returns the node and the position after it.
pub open spec fn spec_mod_item(s: Seq<char>, toks: Seq<Token>, p: int, hi: int) -> Result<
    (ModifierNodeV, int),
    SyntaxError,
> {
    if !(0 <= p && p < hi && hi <= toks.len()) {
        Err(SyntaxError { offset: spec_offset_at(s, toks, p), expected: Expected::Modifier })
    } else {
        let t = tok_text(s, toks[p]);
        if t == "if"@ {
            let q = scan_for_and(s, toks, p + 1, hi);
            if q == p + 1 {
                Err(SyntaxError { offset: toks[p].start, expected: Expected::ConditionText })
            } else {
                Ok((ModifierNodeV::Condition(span_text(s, toks[p], toks[q - 1])), q))
            }
        } else if t == "for"@ {
            let q = scan_for_and(s, toks, p + 1, hi);
            if q == p + 1 {
                Err(SyntaxError { offset: toks[p].start, expected: Expected::DurationText })
            } else {
                Ok((ModifierNodeV::Duration(span_text(s, toks[p], toks[q - 1])), q))
            }
        } else if is_number_text(t) {
            if p + 2 < hi && tok_text(s, toks[p + 1]) == "of"@ && tok_text(s, toks[p + 2])
                == "times"@ {
                Ok(
                    (
                        ModifierNodeV::Repetition(
                            RepetitionNodeV { children: seq![LeafV { rule: Rule::Number, text: t }] },
                        ),
                        p + 3,
                    ),
                )
            } else {
                Err(SyntaxError { offset: toks[p].start, expected: Expected::KeywordOfTimes })
            }
        } else if is_word_text(t) {
            Ok((ModifierNodeV::Adjective(t), p + 1))
        } else {
            Err(SyntaxError { offset: toks[p].start, expected: Expected::Modifier })
        }
    }
}

/// The modifier list filling the whole token range `[p, hi)`: modifiers
/// joined by the conjunction `and`. An empty range is an empty list.
pub open spec fn spec_mods_list(s: Seq<char>, toks: Seq<Token>, p: int, hi: int) -> Result<
    Seq<ModifierNodeV>,
    SyntaxError,
>
    decreases hi - p,
{
    if p >= hi {
        Ok(Seq::empty())
    } else {
        match spec_mod_item(s, toks, p, hi) {
            Err(e) => Err(e),
            Ok((m, q)) => {
                if q <= p {  // a modifier always consumes tokens
                    Err(SyntaxError { offset: spec_offset_at(s, toks, p), expected: Expected::Modifier })
                } else if q >= hi {
                    Ok(seq![m])
                } else if tok_text(s, toks[q]) == "and"@ {
                    if q + 1 >= hi {
                        Err(SyntaxError { offset: toks[q].start, expected: Expected::Modifier })
                    } else {
                        match spec_mods_list(s, toks, q + 1, hi) {
                            Err(e) => Err(e),
                            Ok(rest) => Ok(seq![m] + rest),
                        }
                    }
                } else {
                    Err(SyntaxError { offset: toks[q].start, expected: Expected::KeywordAnd })
                }
            },
        }
    }
}

/// A spell-type clause over `[a, b)`: an optional modifier list, then the
/// spell-type word last.
pub open spec fn spec_type_clause(s: Seq<char>, toks: Seq<Token>, a: int, b: int) -> Result<
    SpellTypeParamsNodeV,
    SyntaxError,
> {
    if !(0 <= a && a < b && b <= toks.len()) {
        Err(SyntaxError { offset: spec_offset_at(s, toks, a), expected: Expected::SpellType })
    } else if !is_word_text(tok_text(s, toks[b - 1])) {
        Err(SyntaxError { offset: toks[b - 1].start, expected: Expected::SpellType })
    } else {
        match spec_mods_list(s, toks, a, b - 1) {
            Err(e) => Err(e),
            Ok(ms) => Ok(
                SpellTypeParamsNodeV {
                    children: if ms.len() == 0 {
                        seq![SpellTypeParamsChildV::SpellType(tok_text(s, toks[b - 1]))]
                    } else {
                        seq![
                            SpellTypeParamsChildV::Mods(ModifiersNodeV { children: ms }),
                            SpellTypeParamsChildV::SpellType(tok_text(s, toks[b - 1])),
                        ]
                    },
                },
            ),
        }
    }
}

pub open spec fn exec_params_node_v(ms: Seq<ModifierNodeV>, text: Seq<char>) -> ExecutableParamsNodeV {
    ExecutableParamsNodeV {
        children: if ms.len() == 0 {
            seq![ExecutableParamsChildV::Executable(text)]
        } else {
            seq![
                ExecutableParamsChildV::Mods(ModifiersNodeV { children: ms }),
                ExecutableParamsChildV::Executable(text),
            ]
        },
    }
}

/// One executable clause over `[a, b)`: an optional modifier list, then the
/// action text last — either the verb `apply` with one free word, or a single
/// free word.
pub open spec fn spec_exec_clause(s: Seq<char>, toks: Seq<Token>, a: int, b: int) -> Result<
    ExecutableParamsNodeV,
    SyntaxError,
> {
    if !(0 <= a && a < b && b <= toks.len()) {
        Err(SyntaxError { offset: spec_offset_at(s, toks, a), expected: Expected::Executable })
    } else if b - a >= 2 && tok_text(s, toks[b - 2]) == "apply"@ && is_word_text(
        tok_text(s, toks[b - 1]),
    ) {
        match spec_mods_list(s, toks, a, b - 2) {
            Err(e) => Err(e),
            Ok(ms) => Ok(exec_params_node_v(ms, span_text(s, toks[b - 2], toks[b - 1]))),
        }
    } else if is_word_text(tok_text(s, toks[b - 1])) {
        match spec_mods_list(s, toks, a, b - 1) {
            Err(e) => Err(e),
            Ok(ms) => Ok(exec_params_node_v(ms, tok_text(s, toks[b - 1]))),
        }
    } else {
        Err(SyntaxError { offset: toks[b - 1].start, expected: Expected::Executable })
    }
}

/// The executable clauses of one spell, starting at `a`: clauses joined by
/// the keyword `also`, each ending at the next clause-end token. Returns the
/// clause nodes and the position after the last clause.
pub open spec fn spec_exec_clauses(s: Seq<char>, toks: Seq<Token>, a: int) -> Result<
    (Seq<ExecutableParamsNodeV>, int),
    SyntaxError,
>
    decreases toks.len() - a,
{
    let b = scan_clause_end(s, toks, a);
    match spec_exec_clause(s, toks, a, b) {
        Err(e) => Err(e),
        Ok(ep) => {
            if b < a || b >= toks.len() || tok_text(s, toks[b]) != "also"@ {
                if b < a {  // a clause always lies before its end
                    Err(
                        SyntaxError {
                            offset: spec_offset_at(s, toks, a),
                            expected: Expected::Executable,
                        },
                    )
                } else {
                    Ok((seq![ep], b))
                }
            } else {
                match spec_exec_clauses(s, toks, b + 1) {
                    Err(e) => Err(e),
                    Ok((rest, j)) => Ok((seq![ep] + rest, j)),
                }
            }
        },
    }
}

pub open spec fn spell_node_v(
    invoke: Seq<char>,
    tp: SpellTypeParamsNodeV,
    eps: Seq<ExecutableParamsNodeV>,
) -> SpellNodeV {
    SpellNodeV {
        children: seq![SpellChildV::InvokeWord(invoke), SpellChildV::TypeParams(tp)]
            + eps.map_values(|e: ExecutableParamsNodeV| SpellChildV::ExecParams(e)),
    }
}

/// One spell starting at `i`: an invoke keyword, a spell-type clause up to
/// the keyword `to`, then one or more executable clauses. Returns the spell
/// node and the position after it.
pub open spec fn spec_parse_spell(s: Seq<char>, toks: Seq<Token>, i: int) -> Result<
    (SpellNodeV, int),
    SyntaxError,
> {
    if !(0 <= i && i < toks.len()) {
        Err(SyntaxError { offset: spec_offset_at(s, toks, i), expected: Expected::InvokeWord })
    } else if !is_invoke_text(tok_text(s, toks[i])) {
        Err(SyntaxError { offset: toks[i].start, expected: Expected::InvokeWord })
    } else {
        let j = scan_for_to(s, toks, i + 1);
        if j >= toks.len() {
            Err(SyntaxError { offset: s.len() as usize, expected: Expected::KeywordTo })
        } else {
            match spec_type_clause(s, toks, i + 1, j) {
                Err(e) => Err(e),
                Ok(tp) => match spec_exec_clauses(s, toks, j + 1) {
                    Err(e) => Err(e),
                    Ok((eps, k)) => Ok((spell_node_v(tok_text(s, toks[i]), tp, eps), k)),
                },
            }
        }
    }
}

/// The root rule: spells until the tokens are exhausted, then the
/// end-of-input marker.
pub open spec fn spec_parse_spells(s: Seq<char>, toks: Seq<Token>, i: int) -> Result<
    Seq<RootNodeV>,
    SyntaxError,
>
    decreases toks.len() - i,
{
    if i >= toks.len() {
        Ok(seq![RootNodeV::Eoi])
    } else {
        match spec_parse_spell(s, toks, i) {
            Err(e) => Err(e),
            Ok((sp, k)) => {
                if k <= i || k > toks.len() {  // a spell always consumes tokens
                    Err(
                        SyntaxError {
                            offset: spec_offset_at(s, toks, i),
                            expected: Expected::InvokeWord,
                        },
                    )
                } else {
                    match spec_parse_spells(s, toks, k) {
                        Err(e) => Err(e),
                        Ok(rest) => Ok(seq![RootNodeV::Spell(sp)] + rest),
                    }
                }
            },
        }
    }
}

/// What the grammar recognizes of an input text: its concrete parse tree,
/// or the position-annotated rejection when the text does not match the
/// `spells` rule.
pub open spec fn spec_parse_cst(s: Seq<char>) -> Result<CstV, SyntaxError> {
    match spec_parse_spells(s, spec_tokenize(s), 0) {
        Err(e) => Err(e),
        Ok(ns) => Ok(CstV { nodes: ns }),
    }
}

// ---------------------------------------------------------------------------
// The executable recognizer. Each function returns exactly what its spec
// counterpart defines; a rejection carries the offending offset and the rule
// that was expected there.
// ---------------------------------------------------------------------------

fn find_to(input: &str, toks: &Vec<Token>, i: usize) -> (r: usize)
    requires
        tokens_wf(input@, toks@),
        i <= toks@.len(),
    ensures
        r == scan_for_to(input@, toks@, i as int),
        i <= r <= toks@.len(),
    decreases toks@.len() - i,
{
    if i >= toks.len() {
        return i;
    }
    proof {
        assert(toks@[i as int].start < toks@[i as int].end <= input@.len());
    }
    if tok_eq(input, toks[i], "to") {
        return i;
    }
    find_to(input, toks, i + 1)
}

fn find_clause_end(input: &str, toks: &Vec<Token>, i: usize) -> (r: usize)
    requires
        tokens_wf(input@, toks@),
        i <= toks@.len(),
    ensures
        r == scan_clause_end(input@, toks@, i as int),
        i <= r <= toks@.len(),
    decreases toks@.len() - i,
{
    if i >= toks.len() {
        return i;
    }
    proof {
        assert(toks@[i as int].start < toks@[i as int].end <= input@.len());
    }
    if tok_eq(input, toks[i], "also") || tok_is_invoke(input, toks[i]) {
        return i;
    }
    find_clause_end(input, toks, i + 1)
}

fn find_and(input: &str, toks: &Vec<Token>, i: usize, hi: usize) -> (r: usize)
    requires
        tokens_wf(input@, toks@),
        i <= hi <= toks@.len(),
    ensures
        r == scan_for_and(input@, toks@, i as int, hi as int),
        i <= r <= hi,
    decreases hi - i,
{
    if i >= hi {
        return hi;
    }
    proof {
        assert(toks@[i as int].start < toks@[i as int].end <= input@.len());
    }
    if tok_eq(input, toks[i], "and") {
        return i;
    }
    find_and(input, toks, i + 1, hi)
}

fn offset_at(input: &str, toks: &Vec<Token>, a: usize) -> (r: usize)
    ensures
        r == spec_offset_at(input@, toks@, a as int),
{
    if a < toks.len() {
        toks[a].start
    } else {
        input.unicode_len()
    }
}

fn g_mod_item(input: &str, toks: &Vec<Token>, p: usize, hi: usize) -> (r: Result<
    (ModifierNode, usize),
    SyntaxError,
>)
    requires
        tokens_wf(input@, toks@),
        p < hi <= toks@.len(),
    ensures
        (match spec_mod_item(input@, toks@, p as int, hi as int) {
            Ok(m) => r matches Ok(t) && t.0@ == m.0 && t.1 == m.1,
            Err(e) => r == Err::<(ModifierNode, usize), SyntaxError>(e),
        }),
        r matches Ok(t) ==> p < t.1 <= hi,
{
    let t = toks[p];
    proof {
        assert(toks@[p as int].start < toks@[p as int].end <= input@.len());
    }
    if tok_eq(input, t, "if") {
        let q = find_and(input, toks, p + 1, hi);
        if q == p + 1 {
            return Err(SyntaxError { offset: t.start, expected: Expected::ConditionText });
        }
        proof {
            assert(toks@[q - 1].start < toks@[q - 1].end <= input@.len());
            assert(toks@[p as int].end <= toks@[q - 1].start);
        }
        let text = span_string(input, t, toks[q - 1]);
        return Ok((ModifierNode::Condition(text), q));
    }
    if tok_eq(input, t, "for") {
        let q = find_and(input, toks, p + 1, hi);
        if q == p + 1 {
            return Err(SyntaxError { offset: t.start, expected: Expected::DurationText });
        }
        proof {
            assert(toks@[q - 1].start < toks@[q - 1].end <= input@.len());
            assert(toks@[p as int].end <= toks@[q - 1].start);
        }
        let text = span_string(input, t, toks[q - 1]);
        return Ok((ModifierNode::Duration(text), q));
    }
    if tok_is_number(input, t) {
        if hi - p > 2 {
            proof {
                assert(toks@[p + 1].start < toks@[p + 1].end <= input@.len());
                assert(toks@[p + 2].start < toks@[p + 2].end <= input@.len());
            }
            if tok_eq(input, toks[p + 1], "of") && tok_eq(input, toks[p + 2], "times") {
                let mut children: Vec<Leaf> = Vec::new();
                children.push(Leaf { rule: Rule::Number, text: token_string(input, t) });
                proof {
                    assert(children@.map_values(|l: Leaf| l@) =~= seq![
                        LeafV { rule: Rule::Number, text: tok_text(input@, t) },
                    ]);
                }
                return Ok((ModifierNode::Repetition(RepetitionNode { children }), p + 3));
            }
        }
        return Err(SyntaxError { offset: t.start, expected: Expected::KeywordOfTimes });
    }
    if tok_is_word(input, t) {
        return Ok((ModifierNode::Adjective(token_string(input, t)), p + 1));
    }
    Err(SyntaxError { offset: t.start, expected: Expected::Modifier })
}

fn g_mods_list(input: &str, toks: &Vec<Token>, p: usize, hi: usize) -> (r: Result<
    Vec<ModifierNode>,
    SyntaxError,
>)
    requires
        tokens_wf(input@, toks@),
        p <= toks@.len(),
        hi <= toks@.len(),
    ensures
        (match spec_mods_list(input@, toks@, p as int, hi as int) {
            Ok(ms) => r matches Ok(v) && v@.map_values(|x: ModifierNode| x@) == ms,
            Err(e) => r == Err::<Vec<ModifierNode>, SyntaxError>(e),
        }),
    decreases hi - p,
{
    if p >= hi {
        let v: Vec<ModifierNode> = Vec::new();
        proof {
            assert(v@.map_values(|x: ModifierNode| x@) =~= Seq::<ModifierNodeV>::empty());
        }
        return Ok(v);
    }
    let (node, q) = g_mod_item(input, toks, p, hi)?;
    if q >= hi {
        let mut v: Vec<ModifierNode> = Vec::new();
        v.push(node);
        proof {
            assert(v@.map_values(|x: ModifierNode| x@) =~= seq![node@]);
        }
        return Ok(v);
    }
    proof {
        assert(toks@[q as int].start < toks@[q as int].end <= input@.len());
    }
    if !tok_eq(input, toks[q], "and") {
        return Err(SyntaxError { offset: toks[q].start, expected: Expected::KeywordAnd });
    }
    if hi - q <= 1 {
        return Err(SyntaxError { offset: toks[q].start, expected: Expected::Modifier });
    }
    let rest = g_mods_list(input, toks, q + 1, hi)?;
    let mut v = rest;
    v.insert(0, node);
    proof {
        let ghost f = |x: ModifierNode| x@;
        assert(v@.map_values(f) =~= seq![node@] + v@.skip(1).map_values(f));
    }
    Ok(v)
}

fn g_type_clause(input: &str, toks: &Vec<Token>, a: usize, b: usize) -> (r: Result<
    SpellTypeParamsNode,
    SyntaxError,
>)
    requires
        tokens_wf(input@, toks@),
        a <= toks@.len(),
        b <= toks@.len(),
    ensures
        (match spec_type_clause(input@, toks@, a as int, b as int) {
            Ok(tp) => r matches Ok(n) && n@ == tp,
            Err(e) => r == Err::<SpellTypeParamsNode, SyntaxError>(e),
        }),
{
    if a >= b {
        return Err(SyntaxError { offset: offset_at(input, toks, a), expected: Expected::SpellType });
    }
    let last = toks[b - 1];
    proof {
        assert(toks@[b - 1].start < toks@[b - 1].end <= input@.len());
    }
    if !tok_is_word(input, last) {
        return Err(SyntaxError { offset: last.start, expected: Expected::SpellType });
    }
    let ms = g_mods_list(input, toks, a, b - 1)?;
    let ty = token_string(input, last);
    let has_mods = ms.len() > 0;
    let mut children: Vec<SpellTypeParamsChild> = Vec::new();
    if has_mods {
        children.push(SpellTypeParamsChild::Mods(ModifiersNode { children: ms }));
    }
    children.push(SpellTypeParamsChild::SpellType(ty));
    let node = SpellTypeParamsNode { children };
    proof {
        let ghost tp = (match spec_type_clause(input@, toks@, a as int, b as int) {
            Ok(x) => x,
            Err(_) => arbitrary(),
        });
        assert(node@.children =~= tp.children);
    }
    Ok(node)
}

fn build_exec_params(ms: Vec<ModifierNode>, text: String) -> (r: ExecutableParamsNode)
    ensures
        r@ == exec_params_node_v(ms@.map_values(|x: ModifierNode| x@), text@),
{
    let has_mods = ms.len() > 0;
    let mut children: Vec<ExecutableParamsChild> = Vec::new();
    if has_mods {
        children.push(ExecutableParamsChild::Mods(ModifiersNode { children: ms }));
    }
    children.push(ExecutableParamsChild::Executable(text));
    let node = ExecutableParamsNode { children };
    proof {
        assert(node@.children =~= exec_params_node_v(
            ms@.map_values(|x: ModifierNode| x@),
            text@,
        ).children);
    }
    node
}

fn g_exec_clause(input: &str, toks: &Vec<Token>, a: usize, b: usize) -> (r: Result<
    ExecutableParamsNode,
    SyntaxError,
>)
    requires
        tokens_wf(input@, toks@),
        a <= toks@.len(),
        b <= toks@.len(),
    ensures
        (match spec_exec_clause(input@, toks@, a as int, b as int) {
            Ok(ep) => r matches Ok(n) && n@ == ep,
            Err(e) => r == Err::<ExecutableParamsNode, SyntaxError>(e),
        }),
{
    if a >= b {
        return Err(
            SyntaxError { offset: offset_at(input, toks, a), expected: Expected::Executable },
        );
    }
    let last = toks[b - 1];
    proof {
        assert(toks@[b - 1].start < toks@[b - 1].end <= input@.len());
    }
    if b - a >= 2 {
        let pen = toks[b - 2];
        proof {
            assert(toks@[b - 2].start < toks@[b - 2].end <= input@.len());
            assert(toks@[b - 2].end <= toks@[b - 1].start);
        }
        if tok_eq(input, pen, "apply") && tok_is_word(input, last) {
            let ms = g_mods_list(input, toks, a, b - 2)?;
            let text = span_string(input, pen, last);
            return Ok(build_exec_params(ms, text));
        }
    }
    if !tok_is_word(input, last) {
        return Err(SyntaxError { offset: last.start, expected: Expected::Executable });
    }
    let ms = g_mods_list(input, toks, a, b - 1)?;
    let text = token_string(input, last);
    Ok(build_exec_params(ms, text))
}

fn g_exec_clauses(input: &str, toks: &Vec<Token>, a: usize) -> (r: Result<
    (Vec<ExecutableParamsNode>, usize),
    SyntaxError,
>)
    requires
        tokens_wf(input@, toks@),
        a <= toks@.len(),
    ensures
        (match spec_exec_clauses(input@, toks@, a as int) {
            Ok(p) => r matches Ok(t) && t.0@.map_values(|e: ExecutableParamsNode| e@) == p.0
                && t.1 == p.1,
            Err(e) => r == Err::<(Vec<ExecutableParamsNode>, usize), SyntaxError>(e),
        }),
        r matches Ok(t) ==> a <= t.1 <= toks@.len(),
    decreases toks@.len() - a,
{
    let b = find_clause_end(input, toks, a);
    let ep = g_exec_clause(input, toks, a, b)?;
    if b < toks.len() {
        proof {
            assert(toks@[b as int].start < toks@[b as int].end <= input@.len());
        }
        if tok_eq(input, toks[b], "also") {
            let (rest, k) = g_exec_clauses(input, toks, b + 1)?;
            let mut v = rest;
            v.insert(0, ep);
            proof {
                let ghost f = |e: ExecutableParamsNode| e@;
                assert(v@.map_values(f) =~= seq![ep@] + v@.skip(1).map_values(f));
            }
            return Ok((v, k));
        }
    }
    let mut v: Vec<ExecutableParamsNode> = Vec::new();
    v.push(ep);
    proof {
        assert(v@.map_values(|e: ExecutableParamsNode| e@) =~= seq![ep@]);
    }
    Ok((v, b))
}

fn g_parse_spell(input: &str, toks: &Vec<Token>, i: usize) -> (r: Result<
    (SpellNode, usize),
    SyntaxError,
>)
    requires
        tokens_wf(input@, toks@),
        i <= toks@.len(),
    ensures
        (match spec_parse_spell(input@, toks@, i as int) {
            Ok(p) => r matches Ok(t) && t.0@ == p.0 && t.1 == p.1,
            Err(e) => r == Err::<(SpellNode, usize), SyntaxError>(e),
        }),
        r matches Ok(t) ==> i < t.1 <= toks@.len(),
{
    if i >= toks.len() {
        return Err(
            SyntaxError { offset: input.unicode_len(), expected: Expected::InvokeWord },
        );
    }
    proof {
        assert(toks@[i as int].start < toks@[i as int].end <= input@.len());
    }
    if !tok_is_invoke(input, toks[i]) {
        return Err(SyntaxError { offset: toks[i].start, expected: Expected::InvokeWord });
    }
    let j = find_to(input, toks, i + 1);
    if j >= toks.len() {
        return Err(SyntaxError { offset: input.unicode_len(), expected: Expected::KeywordTo });
    }
    let tp = g_type_clause(input, toks, i + 1, j)?;
    let (eps, k) = g_exec_clauses(input, toks, j + 1)?;
    let mut children: Vec<SpellChild> = Vec::new();
    children.push(SpellChild::InvokeWord(token_string(input, toks[i])));
    children.push(SpellChild::TypeParams(tp));
    let children = append_exec_children(children, eps);
    let node = SpellNode { children };
    proof {
        let ghost g = (match spec_parse_spell(input@, toks@, i as int) {
            Ok(x) => x,
            Err(_) => arbitrary(),
        });
        assert(node@.children =~= g.0.children);
    }
    Ok((node, k))
}

fn append_exec_children(children: Vec<SpellChild>, eps: Vec<ExecutableParamsNode>) -> (r: Vec<
    SpellChild,
>)
    ensures
        r@ == children@ + eps@.map_values(|e: ExecutableParamsNode| SpellChild::ExecParams(e)),
{
    let ghost base = children@;
    let ghost orig = eps@;
    let mut children = children;
    let mut eps = eps;
    let ghost mut done: int = 0;
    while eps.len() > 0
        invariant
            0 <= done <= orig.len(),
            eps@ == orig.skip(done),
            children@.len() == base.len() + done,
            forall|i: int| 0 <= i < base.len() ==> children@[i] == base[i],
            forall|i: int|
                0 <= i < done ==> children@[base.len() + i] == SpellChild::ExecParams(
                    #[trigger] orig[i],
                ),
        decreases eps@.len(),
    {
        let e = eps.remove(0);
        children.push(SpellChild::ExecParams(e));
        proof {
            assert(orig.skip(done)[0] == orig[done]);
            assert(orig.skip(done).remove(0) =~= orig.skip(done + 1));
            done = done + 1;
        }
    }
    proof {
        let ghost mapped = orig.map_values(|e: ExecutableParamsNode| SpellChild::ExecParams(e));
        assert forall|i: int| 0 <= i < orig.len() implies children@[base.len() + i] == mapped[i] by {
            assert(mapped[i] == SpellChild::ExecParams(orig[i]));
        }
        assert(children@ =~= base + mapped);
    }
    children
}

fn g_parse_spells(input: &str, toks: &Vec<Token>, i: usize) -> (r: Result<
    Vec<RootNode>,
    SyntaxError,
>)
    requires
        tokens_wf(input@, toks@),
        i <= toks@.len(),
    ensures
        (match spec_parse_spells(input@, toks@, i as int) {
            Ok(ns) => r matches Ok(v) && v@.map_values(|n: RootNode| n@) == ns,
            Err(e) => r == Err::<Vec<RootNode>, SyntaxError>(e),
        }),
    decreases toks@.len() - i,
{
    if i >= toks.len() {
        let mut v: Vec<RootNode> = Vec::new();
        v.push(RootNode::Eoi);
        proof {
            assert(v@.map_values(|n: RootNode| n@) =~= seq![RootNodeV::Eoi]);
        }
        return Ok(v);
    }
    let (sn, k) = g_parse_spell(input, toks, i)?;
    let rest = g_parse_spells(input, toks, k)?;
    let mut v = rest;
    v.insert(0, RootNode::Spell(sn));
    proof {
        let ghost f = |n: RootNode| n@;
        assert(v@.map_values(f) =~= seq![RootNodeV::Spell(sn@)] + v@.skip(1).map_values(f));
    }
    Ok(v)
}

/// The grammar definition: the single entry operation that matches an input
/// text against the `spells` rule and yields its concrete parse tree, or a
/// position-annotated rejection.
pub struct Grammar;

impl Grammar {
    /// Parses `input` into its concrete parse tree. Succeeds exactly on the
    /// texts the grammar recognizes, and then returns exactly the tree that
    /// `spec_parse_cst` assigns to the text.
    pub fn parse(input: &str) -> (r: Result<Cst, SyntaxError>)
        ensures
            (match spec_parse_cst(input@) {
                Ok(c) => r matches Ok(cst) && cst@ == c,
                Err(e) => r == Err::<Cst, SyntaxError>(e),
            }),
    {
        // The character count bounds the text's length, as the token
        // well-formedness argument needs.
        let n = input.unicode_len();
        let toks = tokenize(input);
        proof {
            assert(input@.len() == n);
            lemma_tokenize_wf(input@);
        }
        match g_parse_spells(input, &toks, 0) {
            Ok(nodes) => {
                let cst = Cst { nodes };
                proof {
                    let ghost c = (match spec_parse_cst(input@) {
                        Ok(x) => x,
                        Err(_) => arbitrary(),
                    });
                    assert(cst@.nodes =~= c.nodes);
                }
                Ok(cst)
            },
            Err(e) => Err(e),
        }
    }
}

/// Matches a document against the `spells` rule and returns its raw
/// concrete parse tree, or the grammar's rejection.
pub fn raw_parse_string(input: &str) -> (r: Result<Cst, SyntaxError>)
    ensures
        (match spec_parse_cst(input@) {
            Ok(c) => r matches Ok(cst) && cst@ == c,
            Err(e) => r == Err::<Cst, SyntaxError>(e),
        }),
{
    Grammar::parse(input)
}

} // verus!
