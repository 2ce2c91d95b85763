use vstd::prelude::*;

verus! {

// ---------------------------------------------------------------------------
// The concrete parse tree: rule-labeled nodes that mirror the grammar rules
// matched over the input, prior to semantic typing. Leaf texts are captured
// verbatim from the source. The tree-to-structure converter consumes this
// tree and performs the remaining validation and coercion.
// ---------------------------------------------------------------------------

/// The grammar rules a node can be labeled with.
#[derive(Clone, Copy, Debug, PartialEq, Eq, Structural)]
pub enum Rule {
    Spells,
    Spell,
    InvokeWord,
    SpellTypeParams,
    SpellType,
    ExecutableParams,
    Executable,
    Modifiers,
    Adjective,
    Condition,
    Repetition,
    Duration,
    Number,
    Eoi,
}

/// A leaf node: a rule label and the text it matched.
#[derive(Debug, PartialEq, Eq)]
pub struct Leaf {
    pub rule: Rule,
    pub text: String,
}

/// A `repetition` node; a well-formed one holds a single `Number` leaf.
#[derive(Debug, PartialEq, Eq)]
pub struct RepetitionNode {
    pub children: Vec<Leaf>,
}

/// One matched modifier, labeled by its modifier kind.
#[derive(Debug, PartialEq, Eq)]
pub enum ModifierNode {
    Adjective(String),
    Condition(String),
    Repetition(RepetitionNode),
    Duration(String),
}

/// A `modifiers` node: the matched modifiers in source order.
#[derive(Debug, PartialEq, Eq)]
pub struct ModifiersNode {
    pub children: Vec<ModifierNode>,
}

/// A child of a `spell_type_params` node.
#[derive(Debug, PartialEq, Eq)]
pub enum SpellTypeParamsChild {
    Mods(ModifiersNode),
    SpellType(String),
}

/// A `spell_type_params` node.
#[derive(Debug, PartialEq, Eq)]
pub struct SpellTypeParamsNode {
    pub children: Vec<SpellTypeParamsChild>,
}

/// A child of an `executable_params` node.
#[derive(Debug, PartialEq, Eq)]
pub enum ExecutableParamsChild {
    Mods(ModifiersNode),
    Executable(String),
}

/// An `executable_params` node.
#[derive(Debug, PartialEq, Eq)]
pub struct ExecutableParamsNode {
    pub children: Vec<ExecutableParamsChild>,
}

/// A child of a `spell` node.
#[derive(Debug, PartialEq, Eq)]
pub enum SpellChild {
    InvokeWord(String),
    TypeParams(SpellTypeParamsNode),
    ExecParams(ExecutableParamsNode),
}

/// A `spell` node.
#[derive(Debug, PartialEq, Eq)]
pub struct SpellNode {
    pub children: Vec<SpellChild>,
}

/// A child of the root: a matched spell, or the end-of-input marker.
#[derive(Debug, PartialEq, Eq)]
pub enum RootNode {
    Spell(SpellNode),
    Eoi,
}

/// The whole concrete parse tree.
#[derive(Debug, PartialEq, Eq)]
pub struct Cst {
    pub nodes: Vec<RootNode>,
}

// ---------------------------------------------------------------------------
// Views: the same tree over `Seq<char>` texts.
// ---------------------------------------------------------------------------

pub struct LeafV {
    pub rule: Rule,
    pub text: Seq<char>,
}

pub struct RepetitionNodeV {
    pub children: Seq<LeafV>,
}

pub enum ModifierNodeV {
    Adjective(Seq<char>),
    Condition(Seq<char>),
    Repetition(RepetitionNodeV),
    Duration(Seq<char>),
}

pub struct ModifiersNodeV {
    pub children: Seq<ModifierNodeV>,
}

pub enum SpellTypeParamsChildV {
    Mods(ModifiersNodeV),
    SpellType(Seq<char>),
}

pub struct SpellTypeParamsNodeV {
    pub children: Seq<SpellTypeParamsChildV>,
}

pub enum ExecutableParamsChildV {
    Mods(ModifiersNodeV),
    Executable(Seq<char>),
}

pub struct ExecutableParamsNodeV {
    pub children: Seq<ExecutableParamsChildV>,
}

pub enum SpellChildV {
    InvokeWord(Seq<char>),
    TypeParams(SpellTypeParamsNodeV),
    ExecParams(ExecutableParamsNodeV),
}

pub struct SpellNodeV {
    pub children: Seq<SpellChildV>,
}

pub enum RootNodeV {
    Spell(SpellNodeV),
    Eoi,
}

pub struct CstV {
    pub nodes: Seq<RootNodeV>,
}

impl View for Leaf {
    type V = LeafV;

    open spec fn view(&self) -> LeafV {
        LeafV { rule: self.rule, text: self.text@ }
    }
}

impl View for RepetitionNode {
    type V = RepetitionNodeV;

    open spec fn view(&self) -> RepetitionNodeV {
        RepetitionNodeV { children: self.children@.map_values(|l: Leaf| l@) }
    }
}

impl View for ModifierNode {
    type V = ModifierNodeV;

    open spec fn view(&self) -> ModifierNodeV {
        match self {
            ModifierNode::Adjective(t) => ModifierNodeV::Adjective(t@),
            ModifierNode::Condition(t) => ModifierNodeV::Condition(t@),
            ModifierNode::Repetition(r) => ModifierNodeV::Repetition(r@),
            ModifierNode::Duration(t) => ModifierNodeV::Duration(t@),
        }
    }
}

impl View for ModifiersNode {
    type V = ModifiersNodeV;

    open spec fn view(&self) -> ModifiersNodeV {
        ModifiersNodeV { children: self.children@.map_values(|m: ModifierNode| m@) }
    }
}

impl View for SpellTypeParamsChild {
    type V = SpellTypeParamsChildV;

    open spec fn view(&self) -> SpellTypeParamsChildV {
        match self {
            SpellTypeParamsChild::Mods(m) => SpellTypeParamsChildV::Mods(m@),
            SpellTypeParamsChild::SpellType(t) => SpellTypeParamsChildV::SpellType(t@),
        }
    }
}

impl View for SpellTypeParamsNode {
    type V = SpellTypeParamsNodeV;

    open spec fn view(&self) -> SpellTypeParamsNodeV {
        SpellTypeParamsNodeV { children: self.children@.map_values(|c: SpellTypeParamsChild| c@) }
    }
}

impl View for ExecutableParamsChild {
    type V = ExecutableParamsChildV;

    open spec fn view(&self) -> ExecutableParamsChildV {
        match self {
            ExecutableParamsChild::Mods(m) => ExecutableParamsChildV::Mods(m@),
            ExecutableParamsChild::Executable(t) => ExecutableParamsChildV::Executable(t@),
        }
    }
}

impl View for ExecutableParamsNode {
    type V = ExecutableParamsNodeV;

    open spec fn view(&self) -> ExecutableParamsNodeV {
        ExecutableParamsNodeV { children: self.children@.map_values(|c: ExecutableParamsChild| c@) }
    }
}

impl View for SpellChild {
    type V = SpellChildV;

    open spec fn view(&self) -> SpellChildV {
        match self {
            SpellChild::InvokeWord(t) => SpellChildV::InvokeWord(t@),
            SpellChild::TypeParams(n) => SpellChildV::TypeParams(n@),
            SpellChild::ExecParams(n) => SpellChildV::ExecParams(n@),
        }
    }
}

impl View for SpellNode {
    type V = SpellNodeV;

    open spec fn view(&self) -> SpellNodeV {
        SpellNodeV { children: self.children@.map_values(|c: SpellChild| c@) }
    }
}

impl View for RootNode {
    type V = RootNodeV;

    open spec fn view(&self) -> RootNodeV {
        match self {
            RootNode::Spell(n) => RootNodeV::Spell(n@),
            RootNode::Eoi => RootNodeV::Eoi,
        }
    }
}

impl View for Cst {
    type V = CstV;

    open spec fn view(&self) -> CstV {
        CstV { nodes: self.nodes@.map_values(|n: RootNode| n@) }
    }
}

} // verus!
