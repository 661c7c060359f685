//! What lowering a syntax tree produces, stated over the tree.
//!
//! Each function here says, for one kind of node, which cards the lowering
//! yields (`Done`), which error it reports (`Failed`), or that the tree breaks a
//! guarantee of the grammar that the lowering relies on (`Panics`). The
//! counter threaded through is the number of table literals lowered so far in
//! the current function; each one takes the next temporary variable name.
use vstd::prelude::*;
use crate::cards::{SpecCard, SpecFunction, SpecModule};
use crate::frontend::error::{SpecLowerError, Stop};
use crate::literals::{spec_decode_escape, spec_is_float_literal, spec_parse_i64};
use crate::syntax::{field_index, named_count, named_index, SyntaxNode};
use crate::text::decimal;

verus! {

/// The outcome of lowering a node. A failure carries the error and the table
/// counter at the point where the lowering stopped; above the level of a
/// function definition, where no counter is being threaded, that counter is 0.
pub enum Outcome<T> {
    Done(T),
    Failed(SpecLowerError, u64),
    Panics,
}

/// Names of the functions defined in the module being lowered.
pub type Known = Seq<Seq<char>>;

pub open spec fn spec_unsupported(n: SyntaxNode) -> SpecLowerError {
    SpecLowerError::UnsupportedNode { kind: n.kind@, start: n.start_byte, end: n.end_byte }
}

/// Name of the temporary variable of the table literal numbered `c`.
pub open spec fn tmp_name(c: u64) -> Seq<char> {
    "__caolc_table_tmp_"@ + decimal(c as nat)
}

pub open spec fn binary_card(op: Seq<char>, l: SpecCard, r: SpecCard) -> Option<SpecCard> {
    let (a, b) = (Box::new(l), Box::new(r));
    if op == "+"@ {
        Some(SpecCard::Add(a, b))
    } else if op == "-"@ {
        Some(SpecCard::Sub(a, b))
    } else if op == "*"@ {
        Some(SpecCard::Mul(a, b))
    } else if op == "/"@ {
        Some(SpecCard::Div(a, b))
    } else if op == "<"@ {
        Some(SpecCard::Less(a, b))
    } else if op == "<="@ {
        Some(SpecCard::LessOrEq(a, b))
    } else if op == "=="@ {
        Some(SpecCard::Equals(a, b))
    } else if op == "!="@ {
        Some(SpecCard::NotEquals(a, b))
    } else {
        None
    }
}

/// The texts of the named children among the first `j` children of `n`.
pub open spec fn named_texts_upto(n: SyntaxNode, j: int) -> Seq<Seq<char>>
    decreases j,
{
    if j <= 0 || n.children@.len() < j {
        Seq::empty()
    } else if n.children@[j - 1].named {
        named_texts_upto(n, j - 1).push(n.children@[j - 1].text@)
    } else {
        named_texts_upto(n, j - 1)
    }
}

/// The texts of the named children of `n`.
pub open spec fn named_texts(n: SyntaxNode) -> Seq<Seq<char>> {
    named_texts_upto(n, n.children@.len() as int)
}

/// `parts` joined with `.` in between.
pub open spec fn join_dot(parts: Seq<Seq<char>>) -> Seq<char>
    decreases parts.len(),
{
    if parts.len() == 0 {
        Seq::empty()
    } else if parts.len() == 1 {
        parts[0]
    } else {
        join_dot(parts.drop_last()) + "."@ + parts.last()
    }
}

/// The text of a string literal node with the first `j` children decoded:
/// `string_content` as is, `escape_sequence` decoded.
pub open spec fn string_upto(n: SyntaxNode, j: int) -> Option<Seq<char>>
    decreases j,
{
    if j <= 0 || n.children@.len() < j {
        Some(Seq::empty())
    } else {
        match string_upto(n, j - 1) {
            Some(s) => {
                let ch = n.children@[j - 1];
                if !ch.named {
                    Some(s)
                } else if ch.kind@ == "string_content"@ {
                    Some(s + ch.text@)
                } else if ch.kind@ == "escape_sequence"@ {
                    match spec_decode_escape(ch.text@) {
                        Some(e) => Some(s + e),
                        None => None,
                    }
                } else {
                    None
                }
            },
            None => None,
        }
    }
}

/// The text a string literal node stands for; `None` where the lowering panics.
pub open spec fn spec_decode_string(n: SyntaxNode) -> Option<Seq<char>> {
    string_upto(n, n.children@.len() as int)
}

/// The dotted name of a callee, from its base (the named child at `f`) through
/// its segments among the first `j` children; `None` once a segment is not an
/// identifier.
pub open spec fn callee_parts_upto(n: SyntaxNode, f: int, j: int) -> Option<Seq<char>>
    decreases j,
{
    if j <= f + 1 || n.children@.len() < j || f < 0 {
        if 0 <= f < n.children@.len() {
            Some(n.children@[f].text@)
        } else {
            None
        }
    } else {
        match callee_parts_upto(n, f, j - 1) {
            Some(s) => {
                let seg = n.children@[j - 1];
                if !seg.named {
                    Some(s)
                } else if seg.kind@ == "identifier"@ {
                    Some(s + "."@ + seg.text@)
                } else {
                    None
                }
            },
            None => None,
        }
    }
}

/// The name of the function that a callee node names: `Some(Some(name))` for an
/// identifier or a dotted chain of identifiers, `Some(None)` for a dynamic
/// callee, `None` where the lowering panics.
pub open spec fn spec_callee(n: SyntaxNode) -> Option<Option<Seq<char>>> {
    if n.kind@ == "identifier"@ {
        Some(Some(n.text@))
    } else if n.kind@ == "postfix_expression"@ {
        match named_index(n, 0) {
            Some(f) => if 0 <= f < n.children@.len() {
                if n.children@[f].kind@ != "identifier"@ {
                    Some(None)
                } else {
                    Some(callee_parts_upto(n, f, n.children@.len() as int))
                }
            } else {
                None
            },
            None => None,
        }
    } else {
        None
    }
}

/// An `expression` node: the node it wraps.
pub open spec fn spec_expression(n: SyntaxNode, known: Known, c: u64) -> Outcome<(SpecCard, u64)>
    decreases n, 0int, 0int,
{
    match named_index(n, 0) {
        Some(j) => if 0 <= j < n.children@.len() {
            spec_expression_inner(n.children@[j], known, c)
        } else {
            Outcome::Panics
        },
        None => Outcome::Panics,
    }
}

pub open spec fn spec_expression_inner(n: SyntaxNode, known: Known, c: u64) -> Outcome<
    (SpecCard, u64),
>
    decreases n, 2int, 0int,
{
    if n.kind@ == "identifier"@ {
        Outcome::Done((SpecCard::ReadVar(n.text@), c))
    } else if n.kind@ == "integer"@ {
        match spec_parse_i64(n.text@) {
            Some(v) => Outcome::Done((SpecCard::ScalarInt(v), c)),
            None => Outcome::Failed(SpecLowerError::BadInteger { text: n.text@ }, c),
        }
    } else if n.kind@ == "float"@ {
        if spec_is_float_literal(n.text@) {
            Outcome::Done((SpecCard::ScalarFloat(n.text@), c))
        } else {
            Outcome::Failed(SpecLowerError::BadFloat { text: n.text@ }, c)
        }
    } else if n.kind@ == "string"@ {
        match spec_decode_string(n) {
            Some(s) => Outcome::Done((SpecCard::StringLiteral(s), c)),
            None => Outcome::Panics,
        }
    } else if n.kind@ == "call_expression"@ {
        spec_call(n, known, c)
    } else if n.kind@ == "postfix_expression"@ {
        spec_postfix(n, known, c)
    } else if n.kind@ == "binary_expression"@ {
        spec_binary(n, known, c)
    } else if n.kind@ == "if_expression"@ {
        spec_if(n, known, c)
    } else if n.kind@ == "array_expression"@ {
        spec_array(n, known, c)
    } else if n.kind@ == "table_expression"@ {
        spec_table(n, known, c)
    } else if n.kind@ == "closure_expression"@ {
        spec_closure(n, known, c)
    } else {
        Outcome::Failed(spec_unsupported(n), c)
    }
}

pub open spec fn spec_binary(n: SyntaxNode, known: Known, c: u64) -> Outcome<(SpecCard, u64)>
    decreases n, 1int, 0int,
{
    let len = n.children@.len();
    match field_index(n, "left"@) {
        Some(li) => if 0 <= li < len {
            match spec_expression(n.children@[li], known, c) {
                Outcome::Done((left, c1)) => match field_index(n, "operator"@) {
                    Some(oi) => if 0 <= oi < len {
                        match field_index(n, "right"@) {
                            Some(ri) => if 0 <= ri < len {
                                match spec_expression(n.children@[ri], known, c1) {
                                    Outcome::Done((right, c2)) => match binary_card(
                                        n.children@[oi].text@,
                                        left,
                                        right,
                                    ) {
                                        Some(card) => Outcome::Done((card, c2)),
                                        None => Outcome::Panics,
                                    },
                                    Outcome::Failed(e, c9) => Outcome::Failed(e, c9),
                                    Outcome::Panics => Outcome::Panics,
                                }
                            } else {
                                Outcome::Panics
                            },
                            None => Outcome::Panics,
                        }
                    } else {
                        Outcome::Panics
                    },
                    None => Outcome::Panics,
                },
                Outcome::Failed(e, c9) => Outcome::Failed(e, c9),
                Outcome::Panics => Outcome::Panics,
            }
        } else {
            Outcome::Panics
        },
        None => Outcome::Panics,
    }
}

pub open spec fn spec_if(n: SyntaxNode, known: Known, c: u64) -> Outcome<(SpecCard, u64)>
    decreases n, 1int, 0int,
{
    let len = n.children@.len();
    match field_index(n, "condition"@) {
        Some(ci) => if 0 <= ci < len {
            match spec_expression(n.children@[ci], known, c) {
                Outcome::Done((cond, c1)) => match field_index(n, "consequence"@) {
                    Some(ti) => if 0 <= ti < len {
                        match spec_expression_block(n.children@[ti], known, c1) {
                            Outcome::Done((then, c2)) => match field_index(n, "alternative"@) {
                                Some(ai) => if 0 <= ai < len {
                                    match spec_expression_block(n.children@[ai], known, c2) {
                                        Outcome::Done((els, c3)) => Outcome::Done(
                                            (
                                                SpecCard::IfElse(
                                                    Box::new(cond),
                                                    Box::new(then),
                                                    Box::new(els),
                                                ),
                                                c3,
                                            ),
                                        ),
                                        Outcome::Failed(e, c9) => Outcome::Failed(e, c9),
                                        Outcome::Panics => Outcome::Panics,
                                    }
                                } else {
                                    Outcome::Panics
                                },
                                None => Outcome::Done(
                                    (SpecCard::IfTrue(Box::new(cond), Box::new(then)), c2),
                                ),
                            },
                            Outcome::Failed(e, c9) => Outcome::Failed(e, c9),
                            Outcome::Panics => Outcome::Panics,
                        }
                    } else {
                        Outcome::Panics
                    },
                    None => Outcome::Panics,
                },
                Outcome::Failed(e, c9) => Outcome::Failed(e, c9),
                Outcome::Panics => Outcome::Panics,
            }
        } else {
            Outcome::Panics
        },
        None => Outcome::Panics,
    }
}

/// An `expression_block` node: the expression it wraps.
pub open spec fn spec_expression_block(n: SyntaxNode, known: Known, c: u64) -> Outcome<
    (SpecCard, u64),
>
    decreases n, 1int, 0int,
{
    match named_index(n, 0) {
        Some(j) => if 0 <= j < n.children@.len() {
            spec_expression(n.children@[j], known, c)
        } else {
            Outcome::Panics
        },
        None => Outcome::Panics,
    }
}

/// The named children among the first `j` children of `n`, each lowered as an
/// expression, in order.
pub open spec fn exprs_upto(n: SyntaxNode, j: int, known: Known, c: u64) -> Outcome<
    (Seq<SpecCard>, u64),
>
    decreases n, 0int, j,
{
    if j <= 0 || n.children@.len() < j {
        Outcome::Done((Seq::empty(), c))
    } else {
        match exprs_upto(n, j - 1, known, c) {
            Outcome::Done((cs, c1)) => {
                let ch = n.children@[j - 1];
                if !ch.named {
                    Outcome::Done((cs, c1))
                } else {
                    match spec_expression(ch, known, c1) {
                        Outcome::Done((card, c2)) => Outcome::Done((cs.push(card), c2)),
                        Outcome::Failed(e, c9) => Outcome::Failed(e, c9),
                        Outcome::Panics => Outcome::Panics,
                    }
                }
            },
            Outcome::Failed(e, c9) => Outcome::Failed(e, c9),
            Outcome::Panics => Outcome::Panics,
        }
    }
}

pub open spec fn spec_array(n: SyntaxNode, known: Known, c: u64) -> Outcome<(SpecCard, u64)>
    decreases n, 1int, 0int,
{
    match exprs_upto(n, n.children@.len() as int, known, c) {
        Outcome::Done((cs, c1)) => Outcome::Done((SpecCard::Array(cs), c1)),
        Outcome::Failed(e, c9) => Outcome::Failed(e, c9),
        Outcome::Panics => Outcome::Panics,
    }
}

/// The key card of a `table_field`: an identifier key as a string, a string key
/// decoded; `None` where the lowering panics.
pub open spec fn table_key(field: SyntaxNode) -> Option<SpecCard> {
    match field_index(field, "key"@) {
        Some(ki) => if 0 <= ki < field.children@.len() {
            let kn = field.children@[ki];
            if kn.kind@ == "identifier"@ {
                Some(SpecCard::StringLiteral(kn.text@))
            } else if kn.kind@ == "string"@ {
                match spec_decode_string(kn) {
                    Some(s) => Some(SpecCard::StringLiteral(s)),
                    None => None,
                }
            } else {
                None
            }
        } else {
            None
        },
        None => None,
    }
}

/// The cards of a table literal held in `tmp`, through its fields among the
/// first `j` children of `n`: the table's creation, then one property set per
/// field.
pub open spec fn fields_upto(n: SyntaxNode, j: int, tmp: Seq<char>, known: Known, c: u64) -> Outcome<
    (Seq<SpecCard>, u64),
>
    decreases n, 0int, j,
{
    if j <= 0 || n.children@.len() < j {
        Outcome::Done(
            (seq![SpecCard::SetVar(tmp, Box::new(SpecCard::CreateTable))], c),
        )
    } else {
        match fields_upto(n, j - 1, tmp, known, c) {
            Outcome::Done((cs, c1)) => {
                let fld = n.children@[j - 1];
                if !fld.named {
                    Outcome::Done((cs, c1))
                } else {
                    match table_key(fld) {
                        Some(key) => match field_index(fld, "value"@) {
                            Some(vi) => if 0 <= vi < fld.children@.len() {
                                match spec_expression(fld.children@[vi], known, c1) {
                                    Outcome::Done((value, c2)) => Outcome::Done(
                                        (
                                            cs.push(
                                                SpecCard::SetProperty {
                                                    value: Box::new(value),
                                                    table: Box::new(SpecCard::ReadVar(tmp)),
                                                    key: Box::new(key),
                                                },
                                            ),
                                            c2,
                                        ),
                                    ),
                                    Outcome::Failed(e, c9) => Outcome::Failed(e, c9),
                                    Outcome::Panics => Outcome::Panics,
                                }
                            } else {
                                Outcome::Panics
                            },
                            None => Outcome::Panics,
                        },
                        None => Outcome::Panics,
                    }
                }
            },
            Outcome::Failed(e, c9) => Outcome::Failed(e, c9),
            Outcome::Panics => Outcome::Panics,
        }
    }
}

/// A table literal: a fresh temporary holds a new table, each field is set on
/// it, and the temporary is read back, all grouped in one composite card.
pub open spec fn spec_table(n: SyntaxNode, known: Known, c: u64) -> Outcome<(SpecCard, u64)>
    decreases n, 1int, 0int,
{
    if c == u64::MAX {
        Outcome::Panics
    } else {
        let tmp = tmp_name(c);
        match fields_upto(n, n.children@.len() as int, tmp, known, (c + 1) as u64) {
            Outcome::Done((cs, c1)) => Outcome::Done(
                (
                    SpecCard::CompositeCard(
                        "table_literal"@,
                        cs.push(SpecCard::ReadVar(tmp)),
                    ),
                    c1,
                ),
            ),
            Outcome::Failed(e, c9) => Outcome::Failed(e, c9),
            Outcome::Panics => Outcome::Panics,
        }
    }
}

pub open spec fn spec_closure(n: SyntaxNode, known: Known, c: u64) -> Outcome<(SpecCard, u64)>
    decreases n, 1int, 0int,
{
    let len = n.children@.len();
    match field_index(n, "parameters"@) {
        Some(pi) => if 0 <= pi < len {
            match field_index(n, "body"@) {
                Some(bi) => if 0 <= bi < len {
                    let args = named_texts(n.children@[pi]);
                    let body = n.children@[bi];
                    if body.kind@ == "block"@ {
                        match spec_block(body, known, c) {
                            Outcome::Done((cards, c1)) => Outcome::Done(
                                (
                                    SpecCard::Closure(
                                        Box::new(SpecFunction { arguments: args, cards: cards }),
                                    ),
                                    c1,
                                ),
                            ),
                            Outcome::Failed(e, c9) => Outcome::Failed(e, c9),
                            Outcome::Panics => Outcome::Panics,
                        }
                    } else if body.kind@ == "expression"@ {
                        match spec_expression(body, known, c) {
                            Outcome::Done((card, c1)) => Outcome::Done(
                                (
                                    SpecCard::Closure(
                                        Box::new(
                                            SpecFunction {
                                                arguments: args,
                                                cards: seq![SpecCard::Return(Box::new(card))],
                                            },
                                        ),
                                    ),
                                    c1,
                                ),
                            ),
                            Outcome::Failed(e, c9) => Outcome::Failed(e, c9),
                            Outcome::Panics => Outcome::Panics,
                        }
                    } else {
                        Outcome::Failed(spec_unsupported(body), c)
                    }
                } else {
                    Outcome::Panics
                },
                None => Outcome::Panics,
            }
        } else {
            Outcome::Panics
        },
        None => Outcome::Panics,
    }
}

/// The base of a postfix expression.
pub open spec fn spec_postfix_base(n: SyntaxNode, known: Known, c: u64) -> Outcome<
    (SpecCard, u64),
>
    decreases n, 2int, 0int,
{
    if n.kind@ == "identifier"@ {
        Outcome::Done((SpecCard::ReadVar(n.text@), c))
    } else if n.kind@ == "call_expression"@ {
        spec_call(n, known, c)
    } else {
        Outcome::Failed(spec_unsupported(n), c)
    }
}

/// A postfix expression from its base (the named child at `f`) through its
/// segments among the first `j` children: `.name` reads a property, `[index]`
/// an element.
pub open spec fn segments_upto(n: SyntaxNode, f: int, j: int, known: Known, c: u64) -> Outcome<
    (SpecCard, u64),
>
    decreases n, 0int, j,
{
    if j <= f + 1 || n.children@.len() < j || f < 0 {
        if 0 <= f < n.children@.len() {
            spec_postfix_base(n.children@[f], known, c)
        } else {
            Outcome::Panics
        }
    } else {
        match segments_upto(n, f, j - 1, known, c) {
            Outcome::Done((acc, c1)) => {
                let seg = n.children@[j - 1];
                if !seg.named {
                    Outcome::Done((acc, c1))
                } else if seg.kind@ == "identifier"@ {
                    Outcome::Done(
                        (
                            SpecCard::GetProperty {
                                table: Box::new(acc),
                                key: Box::new(SpecCard::StringLiteral(seg.text@)),
                            },
                            c1,
                        ),
                    )
                } else if seg.kind@ == "expression"@ {
                    match spec_expression(seg, known, c1) {
                        Outcome::Done((index, c2)) => Outcome::Done(
                            (SpecCard::Get(Box::new(acc), Box::new(index)), c2),
                        ),
                        Outcome::Failed(e, c9) => Outcome::Failed(e, c9),
                        Outcome::Panics => Outcome::Panics,
                    }
                } else {
                    Outcome::Panics
                }
            },
            Outcome::Failed(e, c9) => Outcome::Failed(e, c9),
            Outcome::Panics => Outcome::Panics,
        }
    }
}

pub open spec fn spec_postfix(n: SyntaxNode, known: Known, c: u64) -> Outcome<(SpecCard, u64)>
    decreases n, 1int, 0int,
{
    match named_index(n, 0) {
        Some(f) => segments_upto(n, f, n.children@.len() as int, known, c),
        None => Outcome::Panics,
    }
}

/// The target of a property assignment: the table (all but the last segment)
/// and the key (the last segment).
pub open spec fn spec_postfix_target(n: SyntaxNode, known: Known, c: u64) -> Outcome<
    ((SpecCard, SpecCard), u64),
>
    decreases n, 1int, 0int,
{
    let m = named_count(n);
    if m < 2 {
        Outcome::Panics
    } else {
        match (named_index(n, 0), named_index(n, m - 1)) {
            (Some(f), Some(l)) => if 0 <= l < n.children@.len() {
                match segments_upto(n, f, l, known, c) {
                    Outcome::Done((table, c1)) => {
                        let last = n.children@[l];
                        if last.kind@ == "identifier"@ {
                            Outcome::Done(((table, SpecCard::StringLiteral(last.text@)), c1))
                        } else if last.kind@ == "expression"@ {
                            match spec_expression(last, known, c1) {
                                Outcome::Done((key, c2)) => Outcome::Done(((table, key), c2)),
                                Outcome::Failed(e, c9) => Outcome::Failed(e, c9),
                                Outcome::Panics => Outcome::Panics,
                            }
                        } else {
                            Outcome::Panics
                        }
                    },
                    Outcome::Failed(e, c9) => Outcome::Failed(e, c9),
                    Outcome::Panics => Outcome::Panics,
                }
            } else {
                Outcome::Panics
            },
            _ => Outcome::Panics,
        }
    }
}

/// The arguments of a call among the first `j` children of `n`: the named
/// children of kind `expression`, lowered in order.
pub open spec fn args_upto(n: SyntaxNode, j: int, known: Known, c: u64) -> Outcome<
    (Seq<SpecCard>, u64),
>
    decreases n, 0int, j,
{
    if j <= 0 || n.children@.len() < j {
        Outcome::Done((Seq::empty(), c))
    } else {
        match args_upto(n, j - 1, known, c) {
            Outcome::Done((cs, c1)) => {
                let ch = n.children@[j - 1];
                if !(ch.named && ch.kind@ == "expression"@) {
                    Outcome::Done((cs, c1))
                } else {
                    match spec_expression(ch, known, c1) {
                        Outcome::Done((card, c2)) => Outcome::Done((cs.push(card), c2)),
                        Outcome::Failed(e, c9) => Outcome::Failed(e, c9),
                        Outcome::Panics => Outcome::Panics,
                    }
                }
            },
            Outcome::Failed(e, c9) => Outcome::Failed(e, c9),
            Outcome::Panics => Outcome::Panics,
        }
    }
}

/// A call: a call of a function of the module when the callee names one,
/// a call of a native function otherwise.
pub open spec fn spec_call(n: SyntaxNode, known: Known, c: u64) -> Outcome<(SpecCard, u64)>
    decreases n, 1int, 0int,
{
    match field_index(n, "function"@) {
        Some(fi) => if 0 <= fi < n.children@.len() {
            let callee = n.children@[fi];
            match spec_callee(callee) {
                Some(Some(name)) => match args_upto(n, n.children@.len() as int, known, c) {
                    Outcome::Done((args, c1)) => if known.contains(name) {
                        Outcome::Done((SpecCard::CallFunction(name, args), c1))
                    } else {
                        Outcome::Done((SpecCard::CallNative(name, args), c1))
                    },
                    Outcome::Failed(e, c9) => Outcome::Failed(e, c9),
                    Outcome::Panics => Outcome::Panics,
                },
                Some(None) => Outcome::Failed(
                    SpecLowerError::DynamicCallUnsupported {
                        start: callee.start_byte,
                        end: callee.end_byte,
                    },
                    c,
                ),
                None => Outcome::Panics,
            }
        } else {
            Outcome::Panics
        },
        None => Outcome::Panics,
    }
}

/// The statements among the first `j` children of `n`, lowered in order.
pub open spec fn statements_upto(n: SyntaxNode, j: int, known: Known, c: u64) -> Outcome<
    (Seq<SpecCard>, u64),
>
    decreases n, 0int, j,
{
    if j <= 0 || n.children@.len() < j {
        Outcome::Done((Seq::empty(), c))
    } else {
        match statements_upto(n, j - 1, known, c) {
            Outcome::Done((cs, c1)) => {
                let ch = n.children@[j - 1];
                if !ch.named {
                    Outcome::Done((cs, c1))
                } else {
                    match spec_statement(ch, known, c1) {
                        Outcome::Done((card, c2)) => Outcome::Done((cs.push(card), c2)),
                        Outcome::Failed(e, c9) => Outcome::Failed(e, c9),
                        Outcome::Panics => Outcome::Panics,
                    }
                }
            },
            Outcome::Failed(e, c9) => Outcome::Failed(e, c9),
            Outcome::Panics => Outcome::Panics,
        }
    }
}

/// A block: its statements, one card each.
pub open spec fn spec_block(n: SyntaxNode, known: Known, c: u64) -> Outcome<(Seq<SpecCard>, u64)>
    decreases n, 1int, 0int,
{
    statements_upto(n, n.children@.len() as int, known, c)
}

/// A loop body: a block of one statement is that statement's card; any other
/// block is grouped in a composite card.
pub open spec fn spec_block_single(n: SyntaxNode, known: Known, c: u64) -> Outcome<
    (SpecCard, u64),
>
    decreases n, 2int, 0int,
{
    match spec_block(n, known, c) {
        Outcome::Done((cards, c1)) => if cards.len() == 1 {
            Outcome::Done((cards[0], c1))
        } else {
            Outcome::Done((SpecCard::CompositeCard("block"@, cards), c1))
        },
        Outcome::Failed(e, c9) => Outcome::Failed(e, c9),
        Outcome::Panics => Outcome::Panics,
    }
}

/// The text of the child of `n` under field `f`, if there is one.
pub open spec fn field_text(n: SyntaxNode, f: Seq<char>) -> Option<Seq<char>> {
    match field_index(n, f) {
        Some(i) => if 0 <= i < n.children@.len() {
            Some(n.children@[i].text@)
        } else {
            None
        },
        None => None,
    }
}

pub open spec fn spec_statement(n: SyntaxNode, known: Known, c: u64) -> Outcome<(SpecCard, u64)>
    decreases n, 0int, 0int,
{
    let len = n.children@.len();
    if n.kind@ == "return_statement"@ {
        match named_index(n, 0) {
            Some(j) => if 0 <= j < len {
                match spec_expression(n.children@[j], known, c) {
                    Outcome::Done((card, c1)) => Outcome::Done(
                        (SpecCard::Return(Box::new(card)), c1),
                    ),
                    Outcome::Failed(e, c9) => Outcome::Failed(e, c9),
                    Outcome::Panics => Outcome::Panics,
                }
            } else {
                Outcome::Panics
            },
            None => Outcome::Panics,
        }
    } else if n.kind@ == "global_var_statement"@ || n.kind@ == "local_var_statement"@ {
        match (field_text(n, "name"@), field_index(n, "value"@)) {
            (Some(name), Some(vi)) => if 0 <= vi < len {
                match spec_expression(n.children@[vi], known, c) {
                    Outcome::Done((value, c1)) => if n.kind@ == "global_var_statement"@ {
                        Outcome::Done((SpecCard::SetGlobalVar(name, Box::new(value)), c1))
                    } else {
                        Outcome::Done((SpecCard::SetVar(name, Box::new(value)), c1))
                    },
                    Outcome::Failed(e, c9) => Outcome::Failed(e, c9),
                    Outcome::Panics => Outcome::Panics,
                }
            } else {
                Outcome::Panics
            },
            _ => Outcome::Panics,
        }
    } else if n.kind@ == "set_property_statement"@ {
        match (field_index(n, "target"@), field_index(n, "value"@)) {
            (Some(ti), Some(vi)) => if 0 <= ti < len && 0 <= vi < len {
                match spec_expression(n.children@[vi], known, c) {
                    Outcome::Done((value, c1)) => match spec_postfix_target(
                        n.children@[ti],
                        known,
                        c1,
                    ) {
                        Outcome::Done(((table, key), c2)) => Outcome::Done(
                            (
                                SpecCard::SetProperty {
                                    value: Box::new(value),
                                    table: Box::new(table),
                                    key: Box::new(key),
                                },
                                c2,
                            ),
                        ),
                        Outcome::Failed(e, c9) => Outcome::Failed(e, c9),
                        Outcome::Panics => Outcome::Panics,
                    },
                    Outcome::Failed(e, c9) => Outcome::Failed(e, c9),
                    Outcome::Panics => Outcome::Panics,
                }
            } else {
                Outcome::Panics
            },
            _ => Outcome::Panics,
        }
    } else if n.kind@ == "expression_statement"@ {
        match named_index(n, 0) {
            Some(j) => if 0 <= j < len {
                spec_expression(n.children@[j], known, c)
            } else {
                Outcome::Panics
            },
            None => Outcome::Panics,
        }
    } else if n.kind@ == "while_statement"@ {
        match field_index(n, "condition"@) {
            Some(ci) => if 0 <= ci < len {
                match spec_expression(n.children@[ci], known, c) {
                    Outcome::Done((cond, c1)) => match field_index(n, "body"@) {
                        Some(bi) => if 0 <= bi < len {
                            match spec_block_single(n.children@[bi], known, c1) {
                                Outcome::Done((body, c2)) => Outcome::Done(
                                    (SpecCard::While(Box::new(cond), Box::new(body)), c2),
                                ),
                                Outcome::Failed(e, c9) => Outcome::Failed(e, c9),
                                Outcome::Panics => Outcome::Panics,
                            }
                        } else {
                            Outcome::Panics
                        },
                        None => Outcome::Panics,
                    },
                    Outcome::Failed(e, c9) => Outcome::Failed(e, c9),
                    Outcome::Panics => Outcome::Panics,
                }
            } else {
                Outcome::Panics
            },
            None => Outcome::Panics,
        }
    } else if n.kind@ == "repeat_statement"@ {
        match field_index(n, "count"@) {
            Some(ci) => if 0 <= ci < len {
                match spec_expression(n.children@[ci], known, c) {
                    Outcome::Done((count, c1)) => match field_index(n, "body"@) {
                        Some(bi) => if 0 <= bi < len {
                            match spec_block_single(n.children@[bi], known, c1) {
                                Outcome::Done((body, c2)) => Outcome::Done(
                                    (
                                        SpecCard::Repeat {
                                            count: Box::new(count),
                                            var: field_text(n, "var"@),
                                            body: Box::new(body),
                                        },
                                        c2,
                                    ),
                                ),
                                Outcome::Failed(e, c9) => Outcome::Failed(e, c9),
                                Outcome::Panics => Outcome::Panics,
                            }
                        } else {
                            Outcome::Panics
                        },
                        None => Outcome::Panics,
                    },
                    Outcome::Failed(e, c9) => Outcome::Failed(e, c9),
                    Outcome::Panics => Outcome::Panics,
                }
            } else {
                Outcome::Panics
            },
            None => Outcome::Panics,
        }
    } else if n.kind@ == "foreach_statement"@ {
        match field_index(n, "bindings"@) {
            Some(bi) => if 0 <= bi < len {
                let bindings = n.children@[bi];
                match field_text(bindings, "v"@) {
                    Some(v) => match field_index(n, "iterable"@) {
                        Some(ii) => if 0 <= ii < len {
                            match spec_expression(n.children@[ii], known, c) {
                                Outcome::Done((iterable, c1)) => match field_index(n, "body"@) {
                                    Some(di) => if 0 <= di < len {
                                        match spec_block_single(n.children@[di], known, c1) {
                                            Outcome::Done((body, c2)) => Outcome::Done(
                                                (
                                                    SpecCard::ForEach {
                                                        i: field_text(bindings, "i"@),
                                                        k: field_text(bindings, "k"@),
                                                        v: Some(v),
                                                        iterable: Box::new(iterable),
                                                        body: Box::new(body),
                                                    },
                                                    c2,
                                                ),
                                            ),
                                            Outcome::Failed(e, c9) => Outcome::Failed(e, c9),
                                            Outcome::Panics => Outcome::Panics,
                                        }
                                    } else {
                                        Outcome::Panics
                                    },
                                    None => Outcome::Panics,
                                },
                                Outcome::Failed(e, c9) => Outcome::Failed(e, c9),
                                Outcome::Panics => Outcome::Panics,
                            }
                        } else {
                            Outcome::Panics
                        },
                        None => Outcome::Panics,
                    },
                    None => Outcome::Panics,
                }
            } else {
                Outcome::Panics
            },
            None => Outcome::Panics,
        }
    } else {
        Outcome::Failed(spec_unsupported(n), c)
    }
}

} // verus!

verus! {

// Once a fold stops succeeding it stays where it stopped.

pub proof fn lemma_exprs_stuck(n: SyntaxNode, j: int, k: int, known: Known, c: u64)
    requires
        0 <= j <= k <= n.children@.len(),
        !(exprs_upto(n, j, known, c) is Done),
    ensures
        exprs_upto(n, k, known, c) == exprs_upto(n, j, known, c),
    decreases k - j,
{
    if k > j {
        lemma_exprs_stuck(n, j, k - 1, known, c);
    }
}

pub proof fn lemma_args_stuck(n: SyntaxNode, j: int, k: int, known: Known, c: u64)
    requires
        0 <= j <= k <= n.children@.len(),
        !(args_upto(n, j, known, c) is Done),
    ensures
        args_upto(n, k, known, c) == args_upto(n, j, known, c),
    decreases k - j,
{
    if k > j {
        lemma_args_stuck(n, j, k - 1, known, c);
    }
}

pub proof fn lemma_statements_stuck(n: SyntaxNode, j: int, k: int, known: Known, c: u64)
    requires
        0 <= j <= k <= n.children@.len(),
        !(statements_upto(n, j, known, c) is Done),
    ensures
        statements_upto(n, k, known, c) == statements_upto(n, j, known, c),
    decreases k - j,
{
    if k > j {
        lemma_statements_stuck(n, j, k - 1, known, c);
    }
}

pub proof fn lemma_fields_stuck(
    n: SyntaxNode,
    j: int,
    k: int,
    tmp: Seq<char>,
    known: Known,
    c: u64,
)
    requires
        0 <= j <= k <= n.children@.len(),
        !(fields_upto(n, j, tmp, known, c) is Done),
    ensures
        fields_upto(n, k, tmp, known, c) == fields_upto(n, j, tmp, known, c),
    decreases k - j,
{
    if k > j {
        lemma_fields_stuck(n, j, k - 1, tmp, known, c);
    }
}

pub proof fn lemma_segments_stuck(n: SyntaxNode, f: int, j: int, k: int, known: Known, c: u64)
    requires
        0 <= f < j <= k <= n.children@.len(),
        !(segments_upto(n, f, j, known, c) is Done),
    ensures
        segments_upto(n, f, k, known, c) == segments_upto(n, f, j, known, c),
    decreases k - j,
{
    if k > j {
        lemma_segments_stuck(n, f, j, k - 1, known, c);
    }
}

pub proof fn lemma_string_stuck(n: SyntaxNode, j: int, k: int)
    requires
        0 <= j <= k <= n.children@.len(),
        string_upto(n, j) is None,
    ensures
        string_upto(n, k) is None,
    decreases k - j,
{
    if k > j {
        lemma_string_stuck(n, j, k - 1);
    }
}

pub proof fn lemma_callee_parts_stuck(n: SyntaxNode, f: int, j: int, k: int)
    requires
        0 <= f < j <= k <= n.children@.len(),
        callee_parts_upto(n, f, j) is None,
    ensures
        callee_parts_upto(n, f, k) is None,
    decreases k - j,
{
    if k > j {
        lemma_callee_parts_stuck(n, f, j, k - 1);
    }
}

} // verus!

verus! {

/// The outcome that a stop of the executable lowering stands for.
pub open spec fn stop_outcome<T>(s: Stop, c: u64) -> Outcome<T> {
    match s {
        Stop::Error(e) => Outcome::Failed(e@, c),
        Stop::Panics => Outcome::Panics,
    }
}

/// What an executable lowering returned, as an outcome, with the counter it left.
pub open spec fn card_outcome(r: Result<crate::cards::Card, Stop>, c: u64) -> Outcome<
    (SpecCard, u64),
> {
    match r {
        Ok(card) => Outcome::Done((card@, c)),
        Err(s) => stop_outcome(s, c),
    }
}

pub open spec fn cards_outcome(
    r: Result<Vec<crate::cards::Card>, Stop>,
    c: u64,
) -> Outcome<(Seq<SpecCard>, u64)> {
    match r {
        Ok(cards) => Outcome::Done((crate::cards::cards_view(cards@), c)),
        Err(s) => stop_outcome(s, c),
    }
}

pub open spec fn pair_outcome(
    r: Result<(crate::cards::Card, crate::cards::Card), Stop>,
    c: u64,
) -> Outcome<((SpecCard, SpecCard), u64)> {
    match r {
        Ok((a, b)) => Outcome::Done(((a@, b@), c)),
        Err(s) => stop_outcome(s, c),
    }
}

} // verus!

verus! {

/// The name of a function definition: the text of its first named child.
pub open spec fn function_name(n: SyntaxNode) -> Option<Seq<char>> {
    match named_index(n, 0) {
        Some(j) => if 0 <= j < n.children@.len() {
            Some(n.children@[j].text@)
        } else {
            None
        },
        None => None,
    }
}

/// The names of the function definitions among the first `j` children of `n`.
pub open spec fn known_upto(n: SyntaxNode, j: int) -> Option<Known>
    decreases j,
{
    if j <= 0 || n.children@.len() < j {
        Some(Seq::empty())
    } else {
        match known_upto(n, j - 1) {
            Some(ks) => {
                let ch = n.children@[j - 1];
                if ch.named && ch.kind@ == "function_definition"@ {
                    match function_name(ch) {
                        Some(name) => Some(ks.push(name)),
                        None => None,
                    }
                } else {
                    Some(ks)
                }
            },
            None => None,
        }
    }
}

/// A function definition: its name, then its parameter list and its body
/// block, as its first three named children. Its temporaries count from zero.
pub open spec fn spec_function_definition(n: SyntaxNode, known: Known) -> Outcome<
    (Seq<char>, SpecFunction),
> {
    let len = n.children@.len();
    match (named_index(n, 0), named_index(n, 1), named_index(n, 2)) {
        (Some(a), Some(p), Some(b)) => if 0 <= a < len && 0 <= p < len && 0 <= b < len {
            match spec_block(n.children@[b], known, 0) {
                Outcome::Done((cards, _c)) => Outcome::Done(
                    (
                        n.children@[a].text@,
                        SpecFunction { arguments: named_texts(n.children@[p]), cards: cards },
                    ),
                ),
                Outcome::Failed(e, _c9) => Outcome::Failed(e, 0),
                Outcome::Panics => Outcome::Panics,
            }
        } else {
            Outcome::Panics
        },
        _ => Outcome::Panics,
    }
}

/// An import: the parts of its path joined with `.`.
pub open spec fn spec_import(n: SyntaxNode) -> Option<Seq<char>> {
    match field_index(n, "path"@) {
        Some(i) => if 0 <= i < n.children@.len() {
            Some(join_dot(named_texts(n.children@[i])))
        } else {
            None
        },
        None => None,
    }
}

/// Functions, imports and submodules of a module, in source order.
pub type Defs = (Seq<(Seq<char>, SpecFunction)>, Seq<Seq<char>>, Seq<(Seq<char>, SpecModule)>);

/// The definitions among the first `j` children of `n`.
pub open spec fn defs_upto(n: SyntaxNode, j: int, known: Known) -> Outcome<Defs>
    decreases n, 0int, j,
{
    if j <= 0 || n.children@.len() < j {
        Outcome::Done((Seq::empty(), Seq::empty(), Seq::empty()))
    } else {
        match defs_upto(n, j - 1, known) {
            Outcome::Done((fs, is, ms)) => {
                let ch = n.children@[j - 1];
                if !ch.named {
                    Outcome::Done((fs, is, ms))
                } else if ch.kind@ == "function_definition"@ {
                    match spec_function_definition(ch, known) {
                        Outcome::Done(f) => Outcome::Done((fs.push(f), is, ms)),
                        Outcome::Failed(e, c9) => Outcome::Failed(e, c9),
                        Outcome::Panics => Outcome::Panics,
                    }
                } else if ch.kind@ == "import_statement"@ {
                    match spec_import(ch) {
                        Some(path) => Outcome::Done((fs, is.push(path), ms)),
                        None => Outcome::Panics,
                    }
                } else if ch.kind@ == "module_definition"@ {
                    match spec_module_definition(ch) {
                        Outcome::Done(m) => Outcome::Done((fs, is, ms.push(m))),
                        Outcome::Failed(e, c9) => Outcome::Failed(e, c9),
                        Outcome::Panics => Outcome::Panics,
                    }
                } else if ch.kind@ == "identifier"@ {
                    Outcome::Done((fs, is, ms))
                } else {
                    Outcome::Failed(spec_unsupported(ch), 0)
                }
            },
            Outcome::Failed(e, c9) => Outcome::Failed(e, c9),
            Outcome::Panics => Outcome::Panics,
        }
    }
}

/// The body of a source file or of a module: its function definitions, imports
/// and submodules. Calls to the functions defined here are static calls.
pub open spec fn spec_definitions(n: SyntaxNode) -> Outcome<SpecModule>
    decreases n, 1int, 0int,
{
    match known_upto(n, n.children@.len() as int) {
        Some(known) => match defs_upto(n, n.children@.len() as int, known) {
            Outcome::Done((fs, is, ms)) => Outcome::Done(
                SpecModule { submodules: ms, functions: fs, imports: is },
            ),
            Outcome::Failed(e, c9) => Outcome::Failed(e, c9),
            Outcome::Panics => Outcome::Panics,
        },
        None => Outcome::Panics,
    }
}

/// A module definition: its name, and its body as a module.
pub open spec fn spec_module_definition(n: SyntaxNode) -> Outcome<(Seq<char>, SpecModule)>
    decreases n, 2int, 0int,
{
    match field_index(n, "name"@) {
        Some(i) => if 0 <= i < n.children@.len() {
            match spec_definitions(n) {
                Outcome::Done(m) => Outcome::Done((n.children@[i].text@, m)),
                Outcome::Failed(e, c9) => Outcome::Failed(e, c9),
                Outcome::Panics => Outcome::Panics,
            }
        } else {
            Outcome::Panics
        },
        None => Outcome::Panics,
    }
}

/// A whole source file.
pub open spec fn spec_tree_to_program(tree: crate::syntax::SyntaxTree) -> Outcome<SpecModule> {
    spec_definitions(tree.root)
}

pub proof fn lemma_known_stuck(n: SyntaxNode, j: int, k: int)
    requires
        0 <= j <= k <= n.children@.len(),
        known_upto(n, j) is None,
    ensures
        known_upto(n, k) is None,
    decreases k - j,
{
    if k > j {
        lemma_known_stuck(n, j, k - 1);
    }
}

pub proof fn lemma_defs_stuck(n: SyntaxNode, j: int, k: int, known: Known)
    requires
        0 <= j <= k <= n.children@.len(),
        !(defs_upto(n, j, known) is Done),
    ensures
        defs_upto(n, k, known) == defs_upto(n, j, known),
    decreases k - j,
{
    if k > j {
        lemma_defs_stuck(n, j, k - 1, known);
    }
}

pub open spec fn definitions_outcome(r: Result<crate::cards::Module, Stop>) -> Outcome<SpecModule> {
    match r {
        Ok(m) => Outcome::Done(m@),
        Err(s) => stop_outcome(s, 0),
    }
}

pub open spec fn module_outcome(
    r: Result<crate::cards::Module, crate::frontend::error::LowerError>,
) -> Outcome<SpecModule> {
    match r {
        Ok(m) => Outcome::Done(m@),
        Err(e) => Outcome::Failed(e@, 0),
    }
}

} // verus!
