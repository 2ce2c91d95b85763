use crate::ast::{
    Executable, ExecutablePart, ExecutablePartV, ExecutableV, Modifier, ModifierV, Modifiers,
    ModifiersV, Spell, SpellTypePart, SpellTypePartV, SpellV, Spells, SpellsV,
};
use crate::cst::{
    Cst, CstV, ExecutableParamsChildV, ExecutableParamsNode, ExecutableParamsNodeV, ModifierNode,
    ModifierNodeV, ModifiersNode, ModifiersNodeV, RepetitionNode, RepetitionNodeV, RootNode,
    RootNodeV, Rule, SpellChild, SpellChildV, SpellNode, SpellNodeV, SpellTypeParamsChild,
    SpellTypeParamsChildV, SpellTypeParamsNode, SpellTypeParamsNodeV, ExecutableParamsChild,
};
use crate::grammar::{is_digit_char, is_number_text};
use vstd::prelude::*;

verus! {

/// A structural rejection raised while converting an accepted parse tree
/// into the typed tree.
#[derive(Clone, Copy, Debug, PartialEq, Eq, Structural)]
pub enum StructuralError {
    /// A spell node carries no spell-type clause.
    MissingSpellTypeParams,
    /// An executable clause carries no action text.
    MissingExecutable,
    /// A repetition node carries no number child.
    NoNumberInRepetition,
    /// The child of a repetition node is not labeled as a number.
    UnexpectedRuleInRepetition,
    /// A repetition's text is empty or holds a non-digit character.
    InvalidNumber,
    /// A repetition count exceeds the supported integer width.
    NumberTooLarge,
}

// ---------------------------------------------------------------------------
// Numeric coercion: the decimal value of a digit string.
// ---------------------------------------------------------------------------

pub open spec fn digit_val(c: char) -> int {
    c as u32 - '0' as u32
}

pub open spec fn digits_val(t: Seq<char>) -> int
    decreases t.len(),
{
    if t.len() == 0 {
        0
    } else {
        digits_val(t.drop_last()) * 10 + digit_val(t.last())
    }
}

pub proof fn lemma_digits_val_nonneg(t: Seq<char>)
    requires
        forall|i: int| 0 <= i < t.len() ==> is_digit_char(#[trigger] t[i]),
    ensures
        digits_val(t) >= 0,
    decreases t.len(),
{
    if t.len() > 0 {
        lemma_digits_val_nonneg(t.drop_last());
    }
}

/// Appending further digits never shrinks the value.
pub proof fn lemma_digits_val_extend_ge(t: Seq<char>, k: int)
    requires
        forall|i: int| 0 <= i < t.len() ==> is_digit_char(#[trigger] t[i]),
        0 <= k <= t.len(),
    ensures
        digits_val(t) >= digits_val(t.take(k)),
    decreases t.len() - k,
{
    if k == t.len() {
        assert(t.take(k) =~= t);
    } else {
        assert(t.take(k + 1).drop_last() =~= t.take(k));
        assert(t.take(k + 1).last() == t[k]);
        assert(forall|i: int| 0 <= i < t.take(k).len() ==> is_digit_char(#[trigger] t.take(k)[i]));
        lemma_digits_val_nonneg(t.take(k));
        assert(digits_val(t.take(k + 1)) >= digits_val(t.take(k)));
        lemma_digits_val_extend_ge(t, k + 1);
    }
}

/// The coercion of a repetition's text to an unsigned integer: defined
/// exactly on non-empty all-digit texts whose value is representable.
pub open spec fn spec_parse_u32(t: Seq<char>) -> Result<u32, StructuralError> {
    if !is_number_text(t) {
        Err(StructuralError::InvalidNumber)
    } else if digits_val(t) > u32::MAX {
        Err(StructuralError::NumberTooLarge)
    } else {
        Ok(digits_val(t) as u32)
    }
}

fn exec_is_digit(c: char) -> (r: bool)
    ensures
        r == is_digit_char(c),
{
    let u = c as u32;
    u >= '0' as u32 && u <= '9' as u32
}

/// Coerces a digit string to its value, rejecting non-digit content and
/// values beyond the supported width.
fn parse_count(text: &str) -> (r: Result<u32, StructuralError>)
    ensures
        r == spec_parse_u32(text@),
{
    let n = text.unicode_len();
    if n == 0 {
        return Err(StructuralError::InvalidNumber);
    }
    let mut i: usize = 0;
    while i < n
        invariant
            n == text@.len(),
            i <= n,
            forall|j: int| 0 <= j < i ==> is_digit_char(#[trigger] text@[j]),
        decreases n - i,
    {
        let c = text.get_char(i);
        if !exec_is_digit(c) {
            return Err(StructuralError::InvalidNumber);
        }
        i += 1;
    }
    let mut acc: u32 = 0;
    i = 0;
    while i < n
        invariant
            n == text@.len(),
            i <= n,
            forall|j: int| 0 <= j < n ==> is_digit_char(#[trigger] text@[j]),
            acc == digits_val(text@.take(i as int)),
        decreases n - i,
    {
        let c = text.get_char(i);
        proof {
            assert(is_digit_char(text@[i as int]));
        }
        let d = c as u32 - '0' as u32;
        proof {
            assert(text@.take(i + 1 as int).drop_last() =~= text@.take(i as int));
            assert(text@.take(i + 1 as int).last() == text@[i as int]);
            assert(digits_val(text@.take(i + 1 as int)) == acc * 10 + d);
        }
        let limit = (u32::MAX - d) / 10;
        if acc > limit {
            proof {
                assert(u32::MAX - d == 10 * ((u32::MAX - d) as int / 10) + (u32::MAX - d) as int
                    % 10) by (nonlinear_arith);
                assert(acc * 10 >= (limit + 1) * 10) by (nonlinear_arith)
                    requires
                        acc >= limit + 1,
                ;
                assert(digits_val(text@.take(i + 1 as int)) > u32::MAX);
                lemma_digits_val_extend_ge(text@, i + 1 as int);
            }
            return Err(StructuralError::NumberTooLarge);
        }
        proof {
            assert(u32::MAX - d == 10 * ((u32::MAX - d) as int / 10) + (u32::MAX - d) as int % 10)
                by (nonlinear_arith);
            assert(acc * 10 <= limit * 10) by (nonlinear_arith)
                requires
                    acc <= limit,
            ;
        }
        acc = acc * 10 + d;
        i += 1;
    }
    proof {
        assert(text@.take(n as int) =~= text@);
    }
    Ok(acc)
}

// ---------------------------------------------------------------------------
// The converter, specified as folds over each node's children. Each fold
// mirrors a single left-to-right pass: later children of the same kind win,
// failures abort at once.
// ---------------------------------------------------------------------------

/// A `repetition` node must hold exactly a leading `Number` leaf; its text
/// is then coerced.
pub open spec fn spec_convert_rep(rn: RepetitionNodeV) -> Result<u32, StructuralError> {
    if rn.children.len() == 0 {
        Err(StructuralError::NoNumberInRepetition)
    } else if rn.children[0].rule != Rule::Number {
        Err(StructuralError::UnexpectedRuleInRepetition)
    } else {
        spec_parse_u32(rn.children[0].text)
    }
}

pub open spec fn spec_convert_mods_go(
    children: Seq<ModifierNodeV>,
    k: int,
    acc: Seq<ModifierV>,
) -> Result<ModifiersV, StructuralError>
    decreases children.len() - k,
{
    if k < 0 || k >= children.len() {
        Ok(ModifiersV { modifiers: acc })
    } else {
        match children[k] {
            ModifierNodeV::Adjective(t) => spec_convert_mods_go(
                children,
                k + 1,
                acc.push(ModifierV::Adjective { value: t }),
            ),
            ModifierNodeV::Condition(t) => spec_convert_mods_go(
                children,
                k + 1,
                acc.push(ModifierV::Condition { condition_type: t }),
            ),
            ModifierNodeV::Duration(t) => spec_convert_mods_go(
                children,
                k + 1,
                acc.push(ModifierV::Duration { value: t }),
            ),
            ModifierNodeV::Repetition(rn) => match spec_convert_rep(rn) {
                Err(e) => Err(e),
                Ok(v) => spec_convert_mods_go(
                    children,
                    k + 1,
                    acc.push(ModifierV::Repetition { value: v }),
                ),
            },
        }
    }
}

/// A `modifiers` node converts to the modifier sequence, in source order.
pub open spec fn spec_convert_mods(mn: ModifiersNodeV) -> Result<ModifiersV, StructuralError> {
    spec_convert_mods_go(mn.children, 0, Seq::empty())
}

pub open spec fn spec_convert_type_go(
    children: Seq<SpellTypeParamsChildV>,
    k: int,
    ty: Seq<char>,
    ms: ModifiersV,
) -> Result<SpellTypePartV, StructuralError>
    decreases children.len() - k,
{
    if k < 0 || k >= children.len() {
        Ok(SpellTypePartV { spell_type: ty, modifiers: ms })
    } else {
        match children[k] {
            SpellTypeParamsChildV::SpellType(t) => spec_convert_type_go(children, k + 1, t, ms),
            SpellTypeParamsChildV::Mods(mn) => match spec_convert_mods(mn) {
                Err(e) => Err(e),
                Ok(m) => spec_convert_type_go(children, k + 1, ty, m),
            },
        }
    }
}

/// A `spell_type_params` node converts to the spell-type part; a missing
/// `modifiers` child leaves the empty modifier sequence.
pub open spec fn spec_convert_type(tp: SpellTypeParamsNodeV) -> Result<
    SpellTypePartV,
    StructuralError,
> {
    spec_convert_type_go(tp.children, 0, Seq::empty(), ModifiersV { modifiers: Seq::empty() })
}

pub open spec fn spec_convert_exec_go(
    children: Seq<ExecutableParamsChildV>,
    k: int,
    exe: Option<Seq<char>>,
    ms: ModifiersV,
) -> Result<ExecutablePartV, StructuralError>
    decreases children.len() - k,
{
    if k < 0 || k >= children.len() {
        match exe {
            None => Err(StructuralError::MissingExecutable),
            Some(t) => Ok(
                ExecutablePartV { executable: ExecutableV { value: t }, modifiers: ms },
            ),
        }
    } else {
        match children[k] {
            ExecutableParamsChildV::Executable(t) => spec_convert_exec_go(
                children,
                k + 1,
                Some(t),
                ms,
            ),
            ExecutableParamsChildV::Mods(mn) => match spec_convert_mods(mn) {
                Err(e) => Err(e),
                Ok(m) => spec_convert_exec_go(children, k + 1, exe, m),
            },
        }
    }
}

/// An `executable_params` node converts to one executable part; the action
/// text is required.
pub open spec fn spec_convert_exec(ep: ExecutableParamsNodeV) -> Result<
    ExecutablePartV,
    StructuralError,
> {
    spec_convert_exec_go(ep.children, 0, None, ModifiersV { modifiers: Seq::empty() })
}

pub open spec fn spec_convert_spell_go(
    children: Seq<SpellChildV>,
    k: int,
    invoke: Seq<char>,
    stp: Option<SpellTypePartV>,
    eps: Seq<ExecutablePartV>,
) -> Result<SpellV, StructuralError>
    decreases children.len() - k,
{
    if k < 0 || k >= children.len() {
        match stp {
            None => Err(StructuralError::MissingSpellTypeParams),
            Some(t) => Ok(
                SpellV { invoke_word: invoke, spell_type_params: t, executable_params: eps },
            ),
        }
    } else {
        match children[k] {
            SpellChildV::InvokeWord(t) => spec_convert_spell_go(children, k + 1, t, stp, eps),
            SpellChildV::TypeParams(tp) => match spec_convert_type(tp) {
                Err(e) => Err(e),
                Ok(t) => spec_convert_spell_go(children, k + 1, invoke, Some(t), eps),
            },
            SpellChildV::ExecParams(ep) => match spec_convert_exec(ep) {
                Err(e) => Err(e),
                Ok(p) => spec_convert_spell_go(children, k + 1, invoke, stp, eps.push(p)),
            },
        }
    }
}

/// A `spell` node converts to one spell; the spell-type clause is required.
pub open spec fn spec_convert_spell(sn: SpellNodeV) -> Result<SpellV, StructuralError> {
    spec_convert_spell_go(sn.children, 0, Seq::empty(), None, Seq::empty())
}

pub open spec fn spec_convert_spells_go(
    nodes: Seq<RootNodeV>,
    k: int,
    acc: Seq<SpellV>,
) -> Result<SpellsV, StructuralError>
    decreases nodes.len() - k,
{
    if k < 0 || k >= nodes.len() {
        Ok(SpellsV { spells: acc })
    } else {
        match nodes[k] {
            RootNodeV::Eoi => spec_convert_spells_go(nodes, k + 1, acc),
            RootNodeV::Spell(sn) => match spec_convert_spell(sn) {
                Err(e) => Err(e),
                Ok(sp) => spec_convert_spells_go(nodes, k + 1, acc.push(sp)),
            },
        }
    }
}

/// What the converter yields of a concrete parse tree: every spell child of
/// the root, converted in order, or the first structural rejection.
pub open spec fn spec_convert(c: CstV) -> Result<SpellsV, StructuralError> {
    spec_convert_spells_go(c.nodes, 0, Seq::empty())
}

// ---------------------------------------------------------------------------
// The executable converter.
// ---------------------------------------------------------------------------

fn parse_repetition(rn: &RepetitionNode) -> (r: Result<u32, StructuralError>)
    ensures
        r == spec_convert_rep(rn@),
{
    if rn.children.len() == 0 {
        return Err(StructuralError::NoNumberInRepetition);
    }
    let first = &rn.children[0];
    if !matches!(first.rule, Rule::Number) {
        return Err(StructuralError::UnexpectedRuleInRepetition);
    }
    parse_count(first.text.as_str())
}

fn parse_modifiers(mn: &ModifiersNode) -> (r: Result<Modifiers, StructuralError>)
    ensures
        (match spec_convert_mods(mn@) {
            Ok(m) => r matches Ok(x) && x@ == m,
            Err(e) => r == Err::<Modifiers, StructuralError>(e),
        }),
{
    let mut out: Vec<Modifier> = Vec::new();
    let ghost mut gacc: Seq<ModifierV> = Seq::empty();
    let n = mn.children.len();
    let mut k: usize = 0;
    while k < n
        invariant
            n == mn.children@.len(),
            k <= n,
            spec_convert_mods_go(mn@.children, k as int, gacc) == spec_convert_mods(mn@),
            out@.len() == gacc.len(),
            forall|i: int| 0 <= i < gacc.len() ==> out@[i]@ == #[trigger] gacc[i],
        decreases n - k,
    {
        proof {
            assert(mn@.children[k as int] == mn.children@[k as int]@);
        }
        match &mn.children[k] {
            ModifierNode::Adjective(t) => {
                out.push(Modifier::Adjective { value: t.clone() });
                proof {
                    gacc = gacc.push(ModifierV::Adjective { value: t@ });
                }
            },
            ModifierNode::Condition(t) => {
                out.push(Modifier::Condition { condition_type: t.clone() });
                proof {
                    gacc = gacc.push(ModifierV::Condition { condition_type: t@ });
                }
            },
            ModifierNode::Duration(t) => {
                out.push(Modifier::Duration { value: t.clone() });
                proof {
                    gacc = gacc.push(ModifierV::Duration { value: t@ });
                }
            },
            ModifierNode::Repetition(rn) => {
                let v = parse_repetition(rn)?;
                out.push(Modifier::Repetition { value: v });
                proof {
                    gacc = gacc.push(ModifierV::Repetition { value: v });
                }
            },
        }
        k += 1;
    }
    let r = Modifiers { modifiers: out };
    proof {
        assert(r@.modifiers =~= gacc);
    }
    Ok(r)
}

fn parse_spell_type_part(tp: &SpellTypeParamsNode) -> (r: Result<SpellTypePart, StructuralError>)
    ensures
        (match spec_convert_type(tp@) {
            Ok(t) => r matches Ok(x) && x@ == t,
            Err(e) => r == Err::<SpellTypePart, StructuralError>(e),
        }),
{
    let mut spell_type = String::new();
    let mut modifiers = Modifiers::default();
    let n = tp.children.len();
    let mut k: usize = 0;
    while k < n
        invariant
            n == tp.children@.len(),
            k <= n,
            spec_convert_type_go(tp@.children, k as int, spell_type@, modifiers@)
                == spec_convert_type(tp@),
        decreases n - k,
    {
        proof {
            assert(tp@.children[k as int] == tp.children@[k as int]@);
        }
        match &tp.children[k] {
            SpellTypeParamsChild::SpellType(t) => {
                spell_type = t.clone();
            },
            SpellTypeParamsChild::Mods(mn) => {
                modifiers = parse_modifiers(mn)?;
            },
        }
        k += 1;
    }
    Ok(SpellTypePart { spell_type, modifiers })
}

fn parse_executable_part(ep: &ExecutableParamsNode) -> (r: Result<ExecutablePart, StructuralError>)
    ensures
        (match spec_convert_exec(ep@) {
            Ok(p) => r matches Ok(x) && x@ == p,
            Err(e) => r == Err::<ExecutablePart, StructuralError>(e),
        }),
{
    let mut executable: Option<Executable> = None;
    let mut modifiers = Modifiers::default();
    let n = ep.children.len();
    let mut k: usize = 0;
    while k < n
        invariant
            n == ep.children@.len(),
            k <= n,
            spec_convert_exec_go(
                ep@.children,
                k as int,
                match executable {
                    None => None,
                    Some(e) => Some(e@.value),
                },
                modifiers@,
            ) == spec_convert_exec(ep@),
        decreases n - k,
    {
        proof {
            assert(ep@.children[k as int] == ep.children@[k as int]@);
        }
        match &ep.children[k] {
            ExecutableParamsChild::Executable(t) => {
                executable = Some(Executable { value: t.clone() });
            },
            ExecutableParamsChild::Mods(mn) => {
                modifiers = parse_modifiers(mn)?;
            },
        }
        k += 1;
    }
    match executable {
        None => Err(StructuralError::MissingExecutable),
        Some(e) => Ok(ExecutablePart { executable: e, modifiers }),
    }
}

fn parse_spell(sn: &SpellNode) -> (r: Result<Spell, StructuralError>)
    ensures
        (match spec_convert_spell(sn@) {
            Ok(sp) => r matches Ok(x) && x@ == sp,
            Err(e) => r == Err::<Spell, StructuralError>(e),
        }),
{
    let mut invoke_word = String::new();
    let mut spell_type_params: Option<SpellTypePart> = None;
    let mut executable_params: Vec<ExecutablePart> = Vec::new();
    let ghost mut geps: Seq<ExecutablePartV> = Seq::empty();
    let n = sn.children.len();
    let mut k: usize = 0;
    while k < n
        invariant
            n == sn.children@.len(),
            k <= n,
            spec_convert_spell_go(
                sn@.children,
                k as int,
                invoke_word@,
                match spell_type_params {
                    None => None,
                    Some(t) => Some(t@),
                },
                geps,
            ) == spec_convert_spell(sn@),
            executable_params@.len() == geps.len(),
            forall|i: int| 0 <= i < geps.len() ==> executable_params@[i]@ == #[trigger] geps[i],
        decreases n - k,
    {
        proof {
            assert(sn@.children[k as int] == sn.children@[k as int]@);
        }
        match &sn.children[k] {
            SpellChild::InvokeWord(t) => {
                invoke_word = t.clone();
            },
            SpellChild::TypeParams(tp) => {
                spell_type_params = Some(parse_spell_type_part(tp)?);
            },
            SpellChild::ExecParams(ep) => {
                let p = parse_executable_part(ep)?;
                proof {
                    geps = geps.push(p@);
                }
                executable_params.push(p);
            },
        }
        k += 1;
    }
    match spell_type_params {
        None => Err(StructuralError::MissingSpellTypeParams),
        Some(t) => {
            let sp = Spell { invoke_word, spell_type_params: t, executable_params };
            proof {
                assert(sp@.executable_params =~= geps);
            }
            Ok(sp)
        },
    }
}

/// Converts an accepted concrete parse tree into the typed tree: every spell
/// child of the root in order, or the first structural rejection.
pub fn parse_to_structure(cst: &Cst) -> (r: Result<Spells, StructuralError>)
    ensures
        (match spec_convert(cst@) {
            Ok(sv) => r matches Ok(x) && x@ == sv,
            Err(e) => r == Err::<Spells, StructuralError>(e),
        }),
{
    let mut spells: Vec<Spell> = Vec::new();
    let ghost mut gacc: Seq<SpellV> = Seq::empty();
    let n = cst.nodes.len();
    let mut k: usize = 0;
    while k < n
        invariant
            n == cst.nodes@.len(),
            k <= n,
            spec_convert_spells_go(cst@.nodes, k as int, gacc) == spec_convert(cst@),
            spells@.len() == gacc.len(),
            forall|i: int| 0 <= i < gacc.len() ==> spells@[i]@ == #[trigger] gacc[i],
        decreases n - k,
    {
        proof {
            assert(cst@.nodes[k as int] == cst.nodes@[k as int]@);
        }
        match &cst.nodes[k] {
            RootNode::Eoi => {},
            RootNode::Spell(sn) => {
                let sp = parse_spell(sn)?;
                proof {
                    gacc = gacc.push(sp@);
                }
                spells.push(sp);
            },
        }
        k += 1;
    }
    let r = Spells { spells };
    proof {
        assert(r@.spells =~= gacc);
    }
    Ok(r)
}

// ---------------------------------------------------------------------------
// Order preservation.
// ---------------------------------------------------------------------------

/// How one modifier node corresponds to one converted modifier.
pub open spec fn modifier_matches(c: ModifierNodeV, m: ModifierV) -> bool {
    match c {
        ModifierNodeV::Adjective(t) => m == (ModifierV::Adjective { value: t }),
        ModifierNodeV::Condition(t) => m == (ModifierV::Condition { condition_type: t }),
        ModifierNodeV::Duration(t) => m == (ModifierV::Duration { value: t }),
        ModifierNodeV::Repetition(rn) => spec_convert_rep(rn) matches Ok(v) && m == (
        ModifierV::Repetition { value: v }),
    }
}

proof fn lemma_mods_go_order(children: Seq<ModifierNodeV>, k: int, acc: Seq<ModifierV>)
    requires
        0 <= k <= children.len(),
        spec_convert_mods_go(children, k, acc) is Ok,
    ensures
        (match spec_convert_mods_go(children, k, acc) {
            Ok(ms) => {
                &&& ms.modifiers.len() == acc.len() + children.len() - k
                &&& forall|i: int| 0 <= i < acc.len() ==> ms.modifiers[i] == #[trigger] acc[i]
                &&& forall|i: int|
                    k <= i < children.len() ==> modifier_matches(
                        #[trigger] children[i],
                        ms.modifiers[acc.len() + i - k],
                    )
            },
            Err(_) => false,
        }),
    decreases children.len() - k, 1int,
{
    if k == children.len() {
    } else {
        match children[k] {
            ModifierNodeV::Adjective(t) => lemma_mods_go_step(
                children,
                k,
                acc,
                ModifierV::Adjective { value: t },
            ),
            ModifierNodeV::Condition(t) => lemma_mods_go_step(
                children,
                k,
                acc,
                ModifierV::Condition { condition_type: t },
            ),
            ModifierNodeV::Duration(t) => lemma_mods_go_step(
                children,
                k,
                acc,
                ModifierV::Duration { value: t },
            ),
            ModifierNodeV::Repetition(rn) => {
                match spec_convert_rep(rn) {
                    Err(_) => {},
                    Ok(v) => lemma_mods_go_step(children, k, acc, ModifierV::Repetition { value: v }),
                }
            },
        }
    }
}

proof fn lemma_mods_go_step(children: Seq<ModifierNodeV>, k: int, acc: Seq<ModifierV>, x: ModifierV)
    requires
        0 <= k < children.len(),
        modifier_matches(children[k], x),
        spec_convert_mods_go(children, k, acc) == spec_convert_mods_go(
            children,
            k + 1,
            acc.push(x),
        ),
        spec_convert_mods_go(children, k, acc) is Ok,
    ensures
        (match spec_convert_mods_go(children, k, acc) {
            Ok(ms) => {
                &&& ms.modifiers.len() == acc.len() + children.len() - k
                &&& forall|i: int| 0 <= i < acc.len() ==> ms.modifiers[i] == #[trigger] acc[i]
                &&& forall|i: int|
                    k <= i < children.len() ==> modifier_matches(
                        #[trigger] children[i],
                        ms.modifiers[acc.len() + i - k],
                    )
            },
            Err(_) => false,
        }),
    decreases children.len() - k, 0int,
{
    let acc2 = acc.push(x);
    lemma_mods_go_order(children, k + 1, acc2);
    let ms = (match spec_convert_mods_go(children, k, acc) {
        Ok(m) => m,
        Err(_) => arbitrary(),
    });
    assert forall|i: int| 0 <= i < acc.len() implies ms.modifiers[i] == #[trigger] acc[i] by {
        assert(acc2[i] == acc[i]);
        assert(ms.modifiers[i] == acc2[i]);
    }
    assert forall|i: int|
        k <= i < children.len() implies modifier_matches(
        #[trigger] children[i],
        ms.modifiers[acc.len() + i - k],
    ) by {
        if i == k {
            assert(acc2[acc.len() as int] == x);
            assert(ms.modifiers[acc.len() as int] == acc2[acc.len() as int]);
        } else {
            assert(modifier_matches(children[i], ms.modifiers[acc2.len() + i - (k + 1)]));
            assert(acc2.len() + i - (k + 1) == acc.len() + i - k);
        }
    }
}

/// Repetition coercion: a repetition node labeled as a number yields exactly
/// the numeric value of its digit text; a non-numeric text is rejected as
/// invalid and a value beyond the supported width as too large — never
/// replaced by a default.
pub proof fn lemma_repetition_coercion(rn: RepetitionNodeV)
    requires
        rn.children.len() > 0,
        rn.children[0].rule == Rule::Number,
    ensures
        is_number_text(rn.children[0].text) && digits_val(rn.children[0].text) <= u32::MAX
            ==> spec_convert_rep(rn) == Ok::<u32, StructuralError>(
            (digits_val(rn.children[0].text) as u32),
        ),
        !is_number_text(rn.children[0].text) ==> spec_convert_rep(rn) == Err::<
            u32,
            StructuralError,
        >(StructuralError::InvalidNumber),
        is_number_text(rn.children[0].text) && digits_val(rn.children[0].text) > u32::MAX
            ==> spec_convert_rep(rn) == Err::<u32, StructuralError>(StructuralError::NumberTooLarge),
{
}

/// Modifier order preservation: a modifier clause that converts successfully
/// yields exactly one modifier per node, at the same position, converted
/// from that node — never reordered, never deduplicated.
pub proof fn lemma_modifier_order_preserved(mn: ModifiersNodeV)
    requires
        spec_convert_mods(mn) is Ok,
    ensures
        (match spec_convert_mods(mn) {
            Ok(ms) => {
                &&& ms.modifiers.len() == mn.children.len()
                &&& forall|i: int|
                    0 <= i < mn.children.len() ==> modifier_matches(
                        #[trigger] mn.children[i],
                        ms.modifiers[i],
                    )
            },
            Err(_) => false,
        }),
{
    lemma_mods_go_order(mn.children, 0, Seq::empty());
}

} // verus!
