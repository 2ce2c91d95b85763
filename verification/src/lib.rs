use vstd::prelude::*;

pub mod ast;
pub mod convert;
pub mod cst;
pub mod grammar;

pub use ast::{
    Executable, ExecutablePart, ExecutablePartV, ExecutableV, Modifier, ModifierV, Modifiers,
    ModifiersV, Spell, SpellTypePart, SpellTypePartV, SpellV, Spells, SpellsV,
};
pub use convert::{
    lemma_modifier_order_preserved, lemma_repetition_coercion, parse_to_structure, spec_convert,
    StructuralError,
};
pub use cst::{
    Cst, Leaf, ModifierNode, ModifiersNode, RepetitionNode, RootNode, Rule, SpellChild, SpellNode,
    SpellTypeParamsChild, SpellTypeParamsNode, ExecutableParamsChild, ExecutableParamsNode,
};
pub use grammar::{Expected, Grammar, SyntaxError, Token, raw_parse_string, spec_parse_cst};

verus! {

/// A parse failure: the grammar rejected the text, or the converter
/// rejected a syntactically accepted tree.
#[derive(Clone, Copy, Debug, PartialEq, Eq, Structural)]
pub enum ParseError {
    /// The input does not match the grammar; carries offset and expectation.
    Syntax(SyntaxError),
    /// The accepted tree failed structural validation or numeric coercion.
    Conversion(StructuralError),
}

/// What parsing a text yields: the grammar's rejection where the text does
/// not match, and otherwise the converter's result on the recognized tree.
pub open spec fn spec_parse_outcome(s: Seq<char>) -> Result<SpellsV, ParseError> {
    match grammar::spec_parse_cst(s) {
        Err(e) => Err(ParseError::Syntax(e)),
        Ok(c) => match convert::spec_convert(c) {
            Ok(sv) => Ok(sv),
            Err(e) => Err(ParseError::Conversion(e)),
        },
    }
}

/// Parses a whole document into the typed tree. Succeeds exactly on the
/// texts the grammar recognizes whose tree converts cleanly, returns exactly
/// the rejection the pipeline defines otherwise; the result is a pure
/// function of the input text.
pub fn parse_string(input: &str) -> (r: Result<Spells, ParseError>)
    ensures
        (match spec_parse_outcome(input@) {
            Ok(sv) => r matches Ok(sp) && sp@ == sv,
            Err(e) => r == Err::<Spells, ParseError>(e),
        }),
{
    let cst = match raw_parse_string(input) {
        Ok(c) => c,
        Err(e) => {
            return Err(ParseError::Syntax(e));
        },
    };
    match parse_to_structure(&cst) {
        Ok(sp) => Ok(sp),
        Err(e) => Err(ParseError::Conversion(e)),
    }
}

/// The empty document is valid and holds no spells.
pub proof fn lemma_empty_input_accepted()
    ensures
        spec_parse_outcome(Seq::<char>::empty()) == Ok::<SpellsV, ParseError>(
            SpellsV { spells: Seq::<SpellV>::empty() },
        ),
{
    let s = Seq::<char>::empty();
    let toks = grammar::spec_tokenize(s);
    assert(toks =~= Seq::<Token>::empty());
    let ns = seq![cst::RootNodeV::Eoi];
    assert(grammar::spec_parse_spells(s, toks, 0) == Ok::<Seq<cst::RootNodeV>, SyntaxError>(ns));
    assert(convert::spec_convert_spells_go(ns, 1, Seq::<SpellV>::empty())
        == Ok::<SpellsV, StructuralError>(SpellsV { spells: Seq::<SpellV>::empty() }));
}

/// A document whose first token is not a recognized invoke keyword is
/// rejected by the grammar at that token, never partially parsed.
pub proof fn lemma_missing_invoke_rejected(s: Seq<char>)
    requires
        grammar::spec_tokenize(s).len() > 0,
        !grammar::is_invoke_text(grammar::tok_text(s, grammar::spec_tokenize(s)[0])),
    ensures
        spec_parse_outcome(s) == Err::<SpellsV, ParseError>(
            ParseError::Syntax(
                SyntaxError {
                    offset: grammar::spec_tokenize(s)[0].start,
                    expected: Expected::InvokeWord,
                },
            ),
        ),
{
    let toks = grammar::spec_tokenize(s);
    let e = SyntaxError { offset: toks[0].start, expected: Expected::InvokeWord };
    assert(grammar::spec_parse_spell(s, toks, 0) == Err::<(cst::SpellNodeV, int), SyntaxError>(e));
    assert(grammar::spec_parse_spells(s, toks, 0) == Err::<Seq<cst::RootNodeV>, SyntaxError>(e));
}

} // verus!
