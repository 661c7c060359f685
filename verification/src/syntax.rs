//! A concrete syntax tree, as a parser of cao-lang source hands it over:
//! each node has a kind, an optional field name under its parent, whether it
//! is a named node, its source text and byte range, and its children in order.
use vstd::prelude::*;

verus! {

#[derive(Debug, PartialEq, Eq)]
pub struct SyntaxNode {
    pub kind: String,
    /// The field name under which this node hangs in its parent, if any.
    pub field: Option<String>,
    /// Named nodes are grammar rules; anonymous nodes are literal tokens.
    pub named: bool,
    /// The source text that the node spans.
    pub text: String,
    pub start_byte: usize,
    pub end_byte: usize,
    /// All children, named and anonymous, in source order.
    pub children: Vec<SyntaxNode>,
}

/// A parsed source file.
#[derive(Debug, PartialEq, Eq)]
pub struct SyntaxTree {
    pub root: SyntaxNode,
}

/// Index in `ch` of the `i`-th named node at or after position `j`.
pub open spec fn named_index_from(ch: Seq<SyntaxNode>, j: int, i: int) -> Option<int>
    decreases ch.len() - j,
{
    if j < 0 || j >= ch.len() {
        None
    } else if ch[j].named {
        if i == 0 {
            Some(j)
        } else {
            named_index_from(ch, j + 1, i - 1)
        }
    } else {
        named_index_from(ch, j + 1, i)
    }
}

/// Index among the children of `n` of its `i`-th named child.
pub open spec fn named_index(n: SyntaxNode, i: int) -> Option<int> {
    named_index_from(n.children@, 0, i)
}

/// Number of named nodes in `ch` at or after position `j`.
pub open spec fn named_count_from(ch: Seq<SyntaxNode>, j: int) -> nat
    decreases ch.len() - j,
{
    if j < 0 || j >= ch.len() {
        0
    } else if ch[j].named {
        1 + named_count_from(ch, j + 1)
    } else {
        named_count_from(ch, j + 1)
    }
}

/// Number of named children of `n`.
pub open spec fn named_count(n: SyntaxNode) -> nat {
    named_count_from(n.children@, 0)
}

/// Index in `ch` of the first node at or after `j` that hangs under field `f`.
pub open spec fn field_index_from(ch: Seq<SyntaxNode>, j: int, f: Seq<char>) -> Option<int>
    decreases ch.len() - j,
{
    if j < 0 || j >= ch.len() {
        None
    } else if ch[j].field matches Some(g) && g@ == f {
        Some(j)
    } else {
        field_index_from(ch, j + 1, f)
    }
}

/// Index among the children of `n` of the first one under field `f`.
pub open spec fn field_index(n: SyntaxNode, f: Seq<char>) -> Option<int> {
    field_index_from(n.children@, 0, f)
}

pub proof fn lemma_named_index_from_bounds(ch: Seq<SyntaxNode>, j: int, i: int)
    ensures
        named_index_from(ch, j, i) matches Some(k) ==> j <= k < ch.len() && ch[k].named,
    decreases ch.len() - j,
{
    if 0 <= j < ch.len() {
        lemma_named_index_from_bounds(ch, j + 1, i - 1);
        lemma_named_index_from_bounds(ch, j + 1, i);
    }
}

pub proof fn lemma_field_index_from_bounds(ch: Seq<SyntaxNode>, j: int, f: Seq<char>)
    ensures
        field_index_from(ch, j, f) matches Some(k) ==> j <= k < ch.len(),
    decreases ch.len() - j,
{
    if 0 <= j < ch.len() {
        lemma_field_index_from_bounds(ch, j + 1, f);
    }
}

/// `named_index_from` at `j` on the `i`-th named node finds index `k` exactly when
/// the named nodes strictly between `j` and `k` number `i`.
pub proof fn lemma_named_count_index(ch: Seq<SyntaxNode>, j: int, i: int)
    requires
        0 <= j,
        0 <= i,
    ensures
        named_index_from(ch, j, i) is Some <==> i < named_count_from(ch, j),
    decreases ch.len() - j,
{
    if j < ch.len() {
        lemma_named_count_index(ch, j + 1, i);
        if i > 0 {
            lemma_named_count_index(ch, j + 1, i - 1);
        }
    }
}

impl SyntaxNode {
    /// Index of the `i`-th named child.
    pub fn named_child_index(&self, i: usize) -> (r: Option<usize>)
        ensures
            r matches Some(k) ==> named_index(*self, i as int) == Some(k as int),
            r is None ==> named_index(*self, i as int) is None,
    {
        let mut j: usize = 0;
        let mut left: usize = i;
        let len = self.children.len();
        while j < len
            invariant
                len == self.children@.len(),
                j <= len,
                named_index(*self, i as int) == named_index_from(self.children@, j as int, left as int),
            decreases len - j,
        {
            if self.children[j].named {
                if left == 0 {
                    return Some(j);
                }
                left = left - 1;
            }
            j = j + 1;
        }
        None
    }

    /// Number of named children.
    pub fn named_child_count(&self) -> (r: usize)
        ensures
            r == named_count(*self),
    {
        let len = self.children.len();
        let mut j: usize = len;
        let mut count: usize = 0;
        while j > 0
            invariant
                len == self.children@.len(),
                j <= len,
                count == named_count_from(self.children@, j as int),
                count <= self.children@.len() - j,
            decreases j,
        {
            j = j - 1;
            if self.children[j].named {
                count = count + 1;
            }
        }
        count
    }

    /// Index of the first child under field `name`.
    pub fn field_child_index(&self, name: &str) -> (r: Option<usize>)
        ensures
            r matches Some(k) ==> field_index(*self, name@) == Some(k as int),
            r is None ==> field_index(*self, name@) is None,
    {
        let wanted = String::from_str(name);
        let mut j: usize = 0;
        let len = self.children.len();
        while j < len
            invariant
                len == self.children@.len(),
                j <= len,
                wanted@ == name@,
                field_index(*self, name@) == field_index_from(self.children@, j as int, name@),
            decreases len - j,
        {
            match &self.children[j].field {
                Some(f) => {
                    if *f == wanted {
                        return Some(j);
                    }
                },
                None => {},
            }
            j = j + 1;
        }
        None
    }

    /// Whether the node's kind is `kind`.
    pub fn is_kind(&self, kind: &str) -> (r: bool)
        ensures
            r == (self.kind@ == kind@),
    {
        self.kind == String::from_str(kind)
    }
}

} // verus!
