//! Lowering of a cao-lang syntax tree to a module of cards.
pub mod error;
pub mod expr;
pub mod laws;
pub mod model;
pub mod stmt;
pub mod temporaries;

pub use error::{LowerError, Stop};

use vstd::prelude::*;
use crate::cards::{
    cards_view, lemma_submodules_view_push, strings_view, submodules_view_from, Function, Module,
};
use crate::frontend::model::{
    defs_upto, function_name, join_dot, known_upto, lemma_defs_stuck, lemma_known_stuck,
    definitions_outcome, module_outcome, named_texts, named_texts_upto, spec_definitions, spec_function_definition,
    spec_import, spec_module_definition, spec_tree_to_program, spec_unsupported, stop_outcome, tmp_name, Known,
    Outcome,
};
use crate::frontend::stmt::convert_block;
use crate::syntax::{
    lemma_field_index_from_bounds, lemma_named_index_from_bounds, SyntaxNode, SyntaxTree,
};
use crate::text::push_decimal;

verus! {

/// State threaded through the lowering of one top-level function.
///
/// `tmp_counter` starts at zero for each top-level function definition and keeps
/// counting through the closures nested in it, so that the temporary variables
/// of table literals never share a name within one function.
pub struct FnCtx<'a> {
    pub known_functions: &'a Vec<String>,
    pub tmp_counter: u64,
}

impl<'a> FnCtx<'a> {
    /// The names of the functions of the module, as a sequence.
    pub open spec fn known(&self) -> Known {
        strings_view(self.known_functions@)
    }

    pub fn new(known_functions: &'a Vec<String>) -> (ctx: Self)
        ensures
            ctx.known_functions == known_functions,
            ctx.tmp_counter == 0,
    {
        FnCtx { known_functions, tmp_counter: 0 }
    }

    /// A fresh temporary variable name; the counter moves on by one.
    pub fn fresh_tmp(&mut self) -> (name: String)
        requires
            old(self).tmp_counter < u64::MAX,
        ensures
            name@ == tmp_name(old(self).tmp_counter),
            final(self).tmp_counter == old(self).tmp_counter + 1,
            final(self).known_functions == old(self).known_functions,
    {
        let mut name = String::from_str("__caolc_table_tmp_");
        push_decimal(&mut name, self.tmp_counter);
        self.tmp_counter = self.tmp_counter + 1;
        name
    }

    /// Whether `name` is a function of the module.
    pub fn is_known(&self, name: &String) -> (r: bool)
        ensures
            r == self.known().contains(name@),
    {
        let mut i: usize = 0;
        while i < self.known_functions.len()
            invariant
                i <= self.known_functions@.len(),
                forall|k: int| 0 <= k < i ==> self.known_functions@[k]@ != name@,
            decreases self.known_functions@.len() - i,
        {
            if self.known_functions[i] == *name {
                assert(self.known()[i as int] == name@);
                return true;
            }
            i = i + 1;
        }
        assert forall|k: int| 0 <= k < self.known().len() implies self.known()[k] != name@ by {
            assert(self.known()[k] == self.known_functions@[k]@);
        }
        false
    }
}

/// The source text of a node.
pub fn text(node: &SyntaxNode) -> (s: String)
    ensures
        s@ == node.text@,
{
    node.text.clone()
}

/// The error for a node of a kind that is not handled where it stands.
pub fn unsupported(node: &SyntaxNode) -> (e: LowerError)
    ensures
        e@ == spec_unsupported(*node),
{
    LowerError::UnsupportedNode {
        kind: node.kind.clone(),
        start: node.start_byte,
        end: node.end_byte,
    }
}

/// The texts of the named children of a node, in order.
pub fn named_child_texts(node: &SyntaxNode) -> (r: Vec<String>)
    ensures
        strings_view(r@) == named_texts(*node),
{
    let mut out: Vec<String> = Vec::new();
    let mut j: usize = 0;
    while j < node.children.len()
        invariant
            j <= node.children@.len(),
            strings_view(out@) == named_texts_upto(*node, j as int),
        decreases node.children@.len() - j,
    {
        if node.children[j].named {
            let t = text(&node.children[j]);
            out.push(t);
            assert(strings_view(out@) =~= named_texts_upto(*node, j + 1));
        }
        j = j + 1;
    }
    out
}

} // verus!

verus! {

/// `parts` joined with `.` in between.
pub fn join_with_dot(parts: &Vec<String>) -> (s: String)
    ensures
        s@ == join_dot(strings_view(parts@)),
{
    if parts.len() == 0 {
        assert(strings_view(parts@) =~= Seq::empty());
        return String::new();
    }
    let mut out = parts[0].clone();
    assert(strings_view(parts@.subrange(0, 1)) =~= seq![parts@[0]@]);
    let mut i: usize = 1;
    while i < parts.len()
        invariant
            1 <= i <= parts@.len(),
            out@ == join_dot(strings_view(parts@.subrange(0, i as int))),
        decreases parts@.len() - i,
    {
        proof {
            reveal_strlit(".");
        }
        out.append(".");
        out.append(parts[i].as_str());
        let ghost next = strings_view(parts@.subrange(0, i + 1));
        assert(next.drop_last() =~= strings_view(parts@.subrange(0, i as int)));
        assert(next.last() == parts@[i as int]@);
        i = i + 1;
    }
    assert(parts@.subrange(0, i as int) =~= parts@);
    out
}

/// The whole source file as a module.
///
/// Only for trees in the shape that the grammar gives, as `requires` states; a
/// tree that may be out of that shape goes to [`tree_to_program_checked`].
pub fn tree_to_program(tree: &SyntaxTree) -> (res: Result<Module, LowerError>)
    requires
        !(spec_tree_to_program(*tree) is Panics),
    ensures
        module_outcome(res) == spec_tree_to_program(*tree),
{
    match convert_definitions(&tree.root) {
        Ok(module) => Ok(module),
        Err(Stop::Error(e)) => Err(e),
        Err(Stop::Panics) => Err(LowerError::BadInteger { text: String::new() }),
    }
}

/// The whole source file as a module, or `None` for a tree on which
/// [`tree_to_program`] has no answer.
pub fn tree_to_program_checked(tree: &SyntaxTree) -> (r: Option<Result<Module, LowerError>>)
    ensures
        r is None <==> spec_tree_to_program(*tree) is Panics,
        r matches Some(res) ==> module_outcome(res) == spec_tree_to_program(*tree),
{
    match convert_definitions(&tree.root) {
        Ok(module) => Some(Ok(module)),
        Err(Stop::Error(e)) => Some(Err(e)),
        Err(Stop::Panics) => None,
    }
}

/// The names of the function definitions among the children of `node`; `None`
/// when one of them has no name.
fn known_function_names(node: &SyntaxNode) -> (r: Option<Vec<String>>)
    ensures
        r is Some <==> known_upto(*node, node.children@.len() as int) is Some,
        r matches Some(names) ==> strings_view(names@) == known_upto(
            *node,
            node.children@.len() as int,
        )->0,
{
    let len = node.children.len();
    let mut names: Vec<String> = Vec::new();
    let mut j: usize = 0;
    while j < len
        invariant
            len == node.children@.len(),
            j <= len,
            known_upto(*node, j as int) == Some(strings_view(names@)),
        decreases len - j,
    {
        let child = &node.children[j];
        if child.named && child.is_kind("function_definition") {
            match function_definition_name(child) {
                Some(name) => {
                    names.push(name);
                    assert(strings_view(names@) =~= known_upto(*node, j + 1)->0);
                },
                None => {
                    proof {
                        lemma_known_stuck(*node, j + 1, len as int);
                    }
                    return None;
                },
            }
        }
        j = j + 1;
    }
    Some(names)
}

fn function_definition_name(node: &SyntaxNode) -> (name: Option<String>)
    ensures
        name is Some <==> function_name(*node) is Some,
        name matches Some(s) ==> s@ == function_name(*node)->0,
{
    proof {
        lemma_named_index_from_bounds(node.children@, 0, 0);
    }
    match node.named_child_index(0) {
        Some(j) => Some(text(&node.children[j])),
        None => None,
    }
}

fn convert_function_definition(node: &SyntaxNode, known_functions: &Vec<String>) -> (res: Result<
    (String, Function),
    Stop,
>)
    ensures
        match res {
            Ok((name, f)) => spec_function_definition(*node, strings_view(known_functions@))
                == Outcome::Done((name@, f@)),
            Err(s) => spec_function_definition(*node, strings_view(known_functions@))
                == stop_outcome::<(Seq<char>, crate::cards::SpecFunction)>(s, 0),
        },
{
    proof {
        lemma_named_index_from_bounds(node.children@, 0, 0);
        lemma_named_index_from_bounds(node.children@, 0, 1);
        lemma_named_index_from_bounds(node.children@, 0, 2);
    }
    let name = match function_definition_name(node) {
        Some(s) => s,
        None => return Err(Stop::Panics),
    };
    let pi = match node.named_child_index(1) {
        Some(i) => i,
        None => return Err(Stop::Panics),
    };
    let bi = match node.named_child_index(2) {
        Some(i) => i,
        None => return Err(Stop::Panics),
    };
    let arguments = named_child_texts(&node.children[pi]);
    let mut ctx = FnCtx::new(known_functions);
    let cards = convert_block(&node.children[bi], &mut ctx)?;
    let function = Function { arguments, cards };
    assert(function@ == crate::cards::SpecFunction {
        arguments: named_texts(node.children@[pi as int]),
        cards: cards_view(cards@),
    });
    Ok((name, function))
}

fn convert_import(node: &SyntaxNode) -> (path: Option<String>)
    ensures
        path is Some <==> spec_import(*node) is Some,
        path matches Some(p) ==> p@ == spec_import(*node)->0,
{
    proof {
        lemma_field_index_from_bounds(node.children@, 0, "path"@);
    }
    match node.field_child_index("path") {
        Some(i) => {
            let parts = named_child_texts(&node.children[i]);
            Some(join_with_dot(&parts))
        },
        None => None,
    }
}

fn convert_module_definition(node: &SyntaxNode) -> (res: Result<(String, Module), Stop>)
    ensures
        match res {
            Ok((name, m)) => spec_module_definition(*node) == Outcome::Done((name@, m@)),
            Err(s) => spec_module_definition(*node) == stop_outcome::<
                (Seq<char>, crate::cards::SpecModule),
            >(s, 0),
        },
    decreases node, 2int, 0int,
{
    proof {
        lemma_field_index_from_bounds(node.children@, 0, "name"@);
    }
    let ni = match node.field_child_index("name") {
        Some(i) => i,
        None => return Err(Stop::Panics),
    };
    let name = text(&node.children[ni]);
    let module = convert_definitions(node)?;
    Ok((name, module))
}

/// The body of a source file or of a module definition: a sequence of function
/// definitions, imports and module definitions. A module definition's own name
/// child, an identifier, is passed over.
fn convert_definitions(node: &SyntaxNode) -> (res: Result<Module, Stop>)
    ensures
        definitions_outcome(res) == spec_definitions(*node),
    decreases node, 1int, 0int,
{
    let len = node.children.len();
    let known_functions = match known_function_names(node) {
        Some(names) => names,
        None => return Err(Stop::Panics),
    };
    let ghost known = strings_view(known_functions@);
    let mut functions: Vec<(String, Function)> = Vec::new();
    let mut imports: Vec<String> = Vec::new();
    let mut submodules: Vec<(String, Module)> = Vec::new();
    assert(functions@.map_values(|p: (String, Function)| (p.0@, p.1@)) =~= Seq::empty());
    assert(strings_view(imports@) =~= Seq::empty());
    assert(submodules_view_from(submodules@, 0) =~= Seq::empty());
    let mut j: usize = 0;
    while j < len
        invariant
            len == node.children@.len(),
            j <= len,
            known == strings_view(known_functions@),
            known_upto(*node, len as int) == Some(known),
            defs_upto(*node, j as int, known) == Outcome::Done(
                (
                    functions@.map_values(|p: (String, Function)| (p.0@, p.1@)),
                    strings_view(imports@),
                    submodules_view_from(submodules@, 0),
                ),
            ),
        decreases len - j,
    {
        let child = &node.children[j];
        let ghost fs0 = functions@;
        let ghost is0 = imports@;
        let ghost ms0 = submodules@;
        if child.named {
            if child.is_kind("function_definition") {
                match convert_function_definition(child, &known_functions) {
                    Ok(f) => {
                        functions.push(f);
                        assert(functions@.map_values(|p: (String, Function)| (p.0@, p.1@))
                            =~= fs0.map_values(|p: (String, Function)| (p.0@, p.1@)).push(
                            (f.0@, f.1@),
                        ));
                    },
                    Err(e) => {
                        proof {
                            lemma_defs_stuck(*node, j + 1, len as int, known);
                        }
                        return Err(e);
                    },
                }
            } else if child.is_kind("import_statement") {
                match convert_import(child) {
                    Some(path) => {
                        imports.push(path);
                        assert(strings_view(imports@) =~= strings_view(is0).push(path@));
                    },
                    None => {
                        proof {
                            lemma_defs_stuck(*node, j + 1, len as int, known);
                        }
                        return Err(Stop::Panics);
                    },
                }
            } else if child.is_kind("module_definition") {
                match convert_module_definition(child) {
                    Ok(m) => {
                        submodules.push(m);
                        proof {
                            lemma_submodules_view_push(ms0, m);
                        }
                    },
                    Err(e) => {
                        proof {
                            lemma_defs_stuck(*node, j + 1, len as int, known);
                        }
                        return Err(e);
                    },
                }
            } else if child.is_kind("identifier") {
            } else {
                proof {
                    lemma_defs_stuck(*node, j + 1, len as int, known);
                }
                return Err(Stop::Error(unsupported(child)));
            }
        }
        j = j + 1;
    }
    let module = Module { submodules, functions, imports };
    Ok(module)
}

} // verus!
