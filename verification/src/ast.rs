use vstd::prelude::*;

verus! {

// ---------------------------------------------------------------------------
// Mathematical model of the typed tree: each node is a value over `Seq<char>`
// texts. The executable types below each carry a view into this model.
// ---------------------------------------------------------------------------

pub enum ModifierV {
    Adjective { value: Seq<char> },
    Repetition { value: u32 },
    Condition { condition_type: Seq<char> },
    Duration { value: Seq<char> },
}

pub struct ModifiersV {
    pub modifiers: Seq<ModifierV>,
}

pub struct ExecutableV {
    pub value: Seq<char>,
}

pub struct ExecutablePartV {
    pub executable: ExecutableV,
    pub modifiers: ModifiersV,
}

pub struct SpellTypePartV {
    pub spell_type: Seq<char>,
    pub modifiers: ModifiersV,
}

pub struct SpellV {
    pub invoke_word: Seq<char>,
    pub spell_type_params: SpellTypePartV,
    pub executable_params: Seq<ExecutablePartV>,
}

pub struct SpellsV {
    pub spells: Seq<SpellV>,
}

// ---------------------------------------------------------------------------
// The typed tree itself: an ordered sequence of spells, each pairing one
// spell-type clause with one or more executable clauses.
// ---------------------------------------------------------------------------

/// A qualifier attached to a spell-type or executable clause.
#[derive(Debug, PartialEq, Eq)]
pub enum Modifier {
    Adjective { value: String },
    Repetition { value: u32 },
    Condition { condition_type: String },
    Duration { value: String },
}

/// An ordered, duplicate-preserving sequence of modifiers.
#[derive(Debug, PartialEq, Eq)]
pub struct Modifiers {
    pub modifiers: Vec<Modifier>,
}

/// Free-form action text; may span several words.
#[derive(Debug, PartialEq, Eq)]
pub struct Executable {
    pub value: String,
}

/// One action clause of a spell.
#[derive(Debug, PartialEq, Eq)]
pub struct ExecutablePart {
    pub executable: Executable,
    pub modifiers: Modifiers,
}

/// The subject clause of a spell.
#[derive(Debug, PartialEq, Eq)]
pub struct SpellTypePart {
    pub spell_type: String,
    pub modifiers: Modifiers,
}

/// One parsed statement.
#[derive(Debug, PartialEq, Eq)]
pub struct Spell {
    pub invoke_word: String,
    pub spell_type_params: SpellTypePart,
    pub executable_params: Vec<ExecutablePart>,
}

/// Root of a parse result: the spells in source order.
#[derive(Debug, PartialEq, Eq)]
pub struct Spells {
    pub spells: Vec<Spell>,
}

impl View for Modifier {
    type V = ModifierV;

    open spec fn view(&self) -> ModifierV {
        match self {
            Modifier::Adjective { value } => ModifierV::Adjective { value: value@ },
            Modifier::Repetition { value } => ModifierV::Repetition { value: *value },
            Modifier::Condition { condition_type } => ModifierV::Condition {
                condition_type: condition_type@,
            },
            Modifier::Duration { value } => ModifierV::Duration { value: value@ },
        }
    }
}

impl View for Modifiers {
    type V = ModifiersV;

    open spec fn view(&self) -> ModifiersV {
        ModifiersV { modifiers: self.modifiers@.map_values(|m: Modifier| m@) }
    }
}

impl View for Executable {
    type V = ExecutableV;

    open spec fn view(&self) -> ExecutableV {
        ExecutableV { value: self.value@ }
    }
}

impl View for ExecutablePart {
    type V = ExecutablePartV;

    open spec fn view(&self) -> ExecutablePartV {
        ExecutablePartV { executable: self.executable@, modifiers: self.modifiers@ }
    }
}

impl View for SpellTypePart {
    type V = SpellTypePartV;

    open spec fn view(&self) -> SpellTypePartV {
        SpellTypePartV { spell_type: self.spell_type@, modifiers: self.modifiers@ }
    }
}

impl View for Spell {
    type V = SpellV;

    open spec fn view(&self) -> SpellV {
        SpellV {
            invoke_word: self.invoke_word@,
            spell_type_params: self.spell_type_params@,
            executable_params: self.executable_params@.map_values(|p: ExecutablePart| p@),
        }
    }
}

impl View for Spells {
    type V = SpellsV;

    open spec fn view(&self) -> SpellsV {
        SpellsV { spells: self.spells@.map_values(|s: Spell| s@) }
    }
}

impl Default for Modifiers {
    /// The empty modifier sequence.
    fn default() -> (r: Self)
        ensures
            r@ == (ModifiersV { modifiers: Seq::<ModifierV>::empty() }),
    {
        let r = Modifiers { modifiers: Vec::new() };
        proof {
            assert(r@.modifiers =~= Seq::<ModifierV>::empty());
        }
        r
    }
}

} // verus!
