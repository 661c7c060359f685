//! A compiled program: bytecode, data, labels, variables, and its disassembly.
use vstd::prelude::*;
use std::collections::HashMap;
use crate::cards::strings_view;
use crate::handles::{Handle, HandleTable};
use crate::text::{decimal, push_decimal};

verus! {

/// The version of the language that programs are compiled for.
pub const VERSION_STR: &'static str = "0.1.0";

/// The identifier of a variable in a compiled program.
#[derive(Clone, Copy, Debug, PartialEq, Eq)]
pub struct VariableId(pub u32);

/// Position of a card in the bytecode of a program.
#[derive(Clone, Copy, Debug, PartialEq, Eq)]
pub struct Label {
    pub pos: u32,
}

impl Label {
    pub fn new(pos: u32) -> (label: Self)
        ensures
            label.pos == pos,
    {
        Label { pos }
    }
}

/// The labels of a program, keyed by handle.
#[derive(Debug)]
pub struct Labels(pub HandleTable<Label>);

/// The variables of a program: their identifiers and their names, keyed by
/// the handles of their names.
#[derive(Debug)]
pub struct Variables {
    pub ids: HandleTable<VariableId>,
    pub names: HandleTable<String>,
}

impl Variables {
    pub fn new() -> (v: Self)
        ensures
            forall|k: u32| v.ids.lookup(k) is None,
            forall|k: u32| v.names.lookup(k) is None,
    {
        Variables { ids: HandleTable::new(), names: HandleTable::new() }
    }
}

/// The position of a card: the function it belongs to, then its index in each
/// nested list of cards.
#[derive(Debug, PartialEq, Eq)]
pub struct CardIndex {
    pub function: u32,
    pub indices: Vec<u32>,
}

/// Where an instruction comes from: the namespace of its function and its card.
#[derive(Debug, PartialEq, Eq)]
pub struct Trace {
    pub namespace: Vec<String>,
    pub index: CardIndex,
}

/// `parts`, each followed by a `.`.
pub open spec fn dotted_prefix(parts: Seq<Seq<char>>) -> Seq<char>
    decreases parts.len(),
{
    if parts.len() == 0 {
        Seq::empty()
    } else {
        dotted_prefix(parts.drop_last()) + parts.last() + "."@
    }
}

/// The indices, each preceded by a `.`.
pub open spec fn dotted_indices(indices: Seq<u32>) -> Seq<char>
    decreases indices.len(),
{
    if indices.len() == 0 {
        Seq::empty()
    } else {
        dotted_indices(indices.drop_last()) + "."@ + decimal(indices.last() as nat)
    }
}

impl CardIndex {
    /// The function's number, then each index after a `.`.
    pub open spec fn spec_text(&self) -> Seq<char> {
        decimal(self.function as nat) + dotted_indices(self.indices@)
    }

    pub fn to_display_string(&self) -> (s: String)
        ensures
            s@ == self.spec_text(),
    {
        let mut s = String::new();
        push_decimal(&mut s, self.function as u64);
        let mut i: usize = 0;
        while i < self.indices.len()
            invariant
                i <= self.indices@.len(),
                s@ == decimal(self.function as nat) + dotted_indices(
                    self.indices@.subrange(0, i as int),
                ),
            decreases self.indices@.len() - i,
        {
            proof {
                reveal_strlit(".");
            }
            let ghost before = s@;
            s.append(".");
            push_decimal(&mut s, self.indices[i] as u64);
            let ghost next = self.indices@.subrange(0, i + 1);
            assert(next.drop_last() =~= self.indices@.subrange(0, i as int));
            assert(s@ =~= decimal(self.function as nat) + dotted_indices(next));
            i = i + 1;
        }
        assert(self.indices@.subrange(0, i as int) =~= self.indices@);
        s
    }
}

impl Trace {
    /// Each namespace part followed by a `.`, then the card index.
    pub open spec fn spec_text(&self) -> Seq<char> {
        dotted_prefix(strings_view(self.namespace@)) + self.index.spec_text()
    }

    pub fn to_display_string(&self) -> (s: String)
        ensures
            s@ == self.spec_text(),
    {
        let mut s = String::new();
        let mut i: usize = 0;
        while i < self.namespace.len()
            invariant
                i <= self.namespace@.len(),
                s@ == dotted_prefix(strings_view(self.namespace@.subrange(0, i as int))),
            decreases self.namespace@.len() - i,
        {
            proof {
                reveal_strlit(".");
            }
            s.append(self.namespace[i].as_str());
            s.append(".");
            let ghost next = strings_view(self.namespace@.subrange(0, i + 1));
            assert(next.drop_last() =~= strings_view(self.namespace@.subrange(0, i as int)));
            i = i + 1;
        }
        assert(self.namespace@.subrange(0, i as int) =~= self.namespace@);
        let index = self.index.to_display_string();
        s.append(index.as_str());
        s
    }
}

/// A compiled program.
#[derive(Debug)]
pub struct CaoCompiledProgram {
    /// Instructions.
    pub bytecode: Vec<u8>,
    /// Data used by instructions with inputs of variable length.
    pub data: Vec<u8>,
    pub labels: Labels,
    pub variables: Variables,
    pub cao_lang_version: String,
    pub trace: HashMap<u32, Trace>,
}

impl CaoCompiledProgram {
    /// The identifier of the variable called `name`, looked up by the handle of
    /// the name.
    pub fn variable_id(&self, name: &str) -> (r: Option<VariableId>)
        ensures
            r == self.variables.ids.lookup(Handle::spec_from_str(name@).0),
    {
        match self.variables.ids.get(Handle::from_str(name)) {
            Some(id) => Some(*id),
            None => None,
        }
    }
}

impl Default for CaoCompiledProgram {
    fn default() -> (p: Self)
        ensures
            p.bytecode@ == Seq::<u8>::empty(),
            p.data@ == Seq::<u8>::empty(),
            forall|k: u32| p.labels.0.lookup(k) is None,
            forall|k: u32| p.variables.ids.lookup(k) is None,
            forall|k: u32| p.variables.names.lookup(k) is None,
            p.cao_lang_version@ == VERSION_STR@,
            p.trace@ == Map::<u32, Trace>::empty(),
    {
        CaoCompiledProgram {
            bytecode: Vec::new(),
            data: Vec::new(),
            labels: Labels(HandleTable::new()),
            variables: Variables::new(),
            cao_lang_version: String::from_str(VERSION_STR),
            trace: HashMap::new(),
        }
    }
}

} // verus!
