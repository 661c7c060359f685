//! Properties of the lowering that hold for every tree.
use vstd::prelude::*;
use crate::frontend::model::{
    join_dot, named_texts, named_texts_upto, spec_import, args_upto, exprs_upto, fields_upto, segments_upto, spec_array, spec_binary, spec_block,
    spec_block_single, spec_call, spec_callee, spec_closure, spec_expression,
    spec_expression_block, spec_expression_inner, spec_if, spec_postfix, spec_postfix_base,
    spec_postfix_target, spec_statement, spec_table, statements_upto, table_key, tmp_name, Known,
    Outcome,
};
use crate::cards::SpecCard;
use crate::syntax::{field_index, named_count, named_count_from, named_index, named_index_from, SyntaxNode};
use crate::text::lemma_decimal_injective;

verus! {

/// Table literals numbered differently get temporaries with different names.
pub proof fn law_tmp_names_distinct(a: u64, b: u64)
    requires
        a != b,
    ensures
        tmp_name(a) != tmp_name(b),
{
    if tmp_name(a) == tmp_name(b) {
        let p = "__caolc_table_tmp_"@;
        assert(tmp_name(a).subrange(p.len() as int, tmp_name(a).len() as int) =~= crate::text::decimal(
            a as nat,
        ));
        assert(tmp_name(b).subrange(p.len() as int, tmp_name(b).len() as int) =~= crate::text::decimal(
            b as nat,
        ));
        lemma_decimal_injective(a as nat, b as nat);
    }
}

/// The names that successive calls of `fresh_tmp` hand out never repeat: from
/// counter `start`, the calls return `tmp_name(start)`, `tmp_name(start + 1)`,
/// and so on, and no two of them are equal.
pub proof fn law_fresh_names_never_repeat(names: Seq<Seq<char>>, start: u64)
    requires
        start + names.len() <= u64::MAX,
        forall|k: int| 0 <= k < names.len() ==> #[trigger] names[k] == tmp_name((start + k) as u64),
    ensures
        forall|i: int, j: int|
            0 <= i < names.len() && 0 <= j < names.len() && i != j ==> names[i] != names[j],
{
    assert forall|i: int, j: int|
        0 <= i < names.len() && 0 <= j < names.len() && i != j implies names[i] != names[j] by {
        law_tmp_names_distinct((start + i) as u64, (start + j) as u64);
    }
}

/// Lowering an expression never moves the table counter back: every table
/// literal lowered later gets a number at least as large.
pub proof fn law_expression_counter_grows(n: SyntaxNode, known: Known, c: u64)
    ensures
        spec_expression(n, known, c) matches Outcome::Done((_card, c2)) ==> c <= c2,
    decreases n, 0int, 0int,
{
    match named_index(n, 0) {
        Some(j) => if 0 <= j < n.children@.len() {
            lemma_inner(n.children@[j], known, c);
        },
        None => {},
    }
}

proof fn lemma_inner(n: SyntaxNode, known: Known, c: u64)
    ensures
        spec_expression_inner(n, known, c) matches Outcome::Done((_card, c2)) ==> c <= c2,
    decreases n, 2int, 0int,
{
    lemma_call(n, known, c);
    lemma_postfix(n, known, c);
    lemma_binary(n, known, c);
    lemma_if(n, known, c);
    lemma_array(n, known, c);
    lemma_table(n, known, c);
    lemma_closure(n, known, c);
}

proof fn lemma_binary(n: SyntaxNode, known: Known, c: u64)
    ensures
        spec_binary(n, known, c) matches Outcome::Done((_card, c2)) ==> c <= c2,
    decreases n, 1int, 0int,
{
    let len = n.children@.len();
    if let (Some(li), Some(ri)) = (field_index(n, "left"@), field_index(n, "right"@)) {
        if 0 <= li < len && 0 <= ri < len {
            law_expression_counter_grows(n.children@[li], known, c);
            if let Outcome::Done((_l, c1)) = spec_expression(n.children@[li], known, c) {
                law_expression_counter_grows(n.children@[ri], known, c1);
            }
        }
    }
}

proof fn lemma_if(n: SyntaxNode, known: Known, c: u64)
    ensures
        spec_if(n, known, c) matches Outcome::Done((_card, c2)) ==> c <= c2,
    decreases n, 1int, 0int,
{
    let len = n.children@.len();
    if let (Some(ci), Some(ti)) = (field_index(n, "condition"@), field_index(n, "consequence"@)) {
        if 0 <= ci < len && 0 <= ti < len {
            law_expression_counter_grows(n.children@[ci], known, c);
            if let Outcome::Done((_x, c1)) = spec_expression(n.children@[ci], known, c) {
                lemma_expression_block(n.children@[ti], known, c1);
                if let Outcome::Done((_y, c2)) = spec_expression_block(n.children@[ti], known, c1) {
                    if let Some(ai) = field_index(n, "alternative"@) {
                        if 0 <= ai < len {
                            lemma_expression_block(n.children@[ai], known, c2);
                        }
                    }
                }
            }
        }
    }
}

proof fn lemma_expression_block(n: SyntaxNode, known: Known, c: u64)
    ensures
        spec_expression_block(n, known, c) matches Outcome::Done((_card, c2)) ==> c <= c2,
    decreases n, 1int, 0int,
{
    match named_index(n, 0) {
        Some(j) => if 0 <= j < n.children@.len() {
            law_expression_counter_grows(n.children@[j], known, c);
        },
        None => {},
    }
}

proof fn lemma_exprs(n: SyntaxNode, j: int, known: Known, c: u64)
    ensures
        exprs_upto(n, j, known, c) matches Outcome::Done((_cards, c2)) ==> c <= c2,
    decreases n, 0int, j,
{
    if !(j <= 0 || n.children@.len() < j) {
        lemma_exprs(n, j - 1, known, c);
        if let Outcome::Done((_cs, c1)) = exprs_upto(n, j - 1, known, c) {
            law_expression_counter_grows(n.children@[j - 1], known, c1);
        }
    }
}

proof fn lemma_array(n: SyntaxNode, known: Known, c: u64)
    ensures
        spec_array(n, known, c) matches Outcome::Done((_card, c2)) ==> c <= c2,
    decreases n, 1int, 0int,
{
    lemma_exprs(n, n.children@.len() as int, known, c);
}

proof fn lemma_fields(n: SyntaxNode, j: int, tmp: Seq<char>, known: Known, c: u64)
    ensures
        fields_upto(n, j, tmp, known, c) matches Outcome::Done((_cards, c2)) ==> c <= c2,
    decreases n, 0int, j,
{
    if !(j <= 0 || n.children@.len() < j) {
        lemma_fields(n, j - 1, tmp, known, c);
        if let Outcome::Done((_cs, c1)) = fields_upto(n, j - 1, tmp, known, c) {
            let fld = n.children@[j - 1];
            if let Some(vi) = field_index(fld, "value"@) {
                if 0 <= vi < fld.children@.len() {
                    law_expression_counter_grows(fld.children@[vi], known, c1);
                }
            }
        }
    }
}

/// A table literal takes the current number and moves the counter past it.
pub proof fn law_table_takes_a_number(n: SyntaxNode, known: Known, c: u64)
    ensures
        spec_table(n, known, c) matches Outcome::Done((_card, c2)) ==> c < c2,
    decreases n, 1int, 0int,
{
    if c < u64::MAX {
        lemma_fields(n, n.children@.len() as int, tmp_name(c), known, (c + 1) as u64);
    }
}

proof fn lemma_table(n: SyntaxNode, known: Known, c: u64)
    ensures
        spec_table(n, known, c) matches Outcome::Done((_card, c2)) ==> c <= c2,
    decreases n, 1int, 1int,
{
    law_table_takes_a_number(n, known, c);
}

proof fn lemma_closure(n: SyntaxNode, known: Known, c: u64)
    ensures
        spec_closure(n, known, c) matches Outcome::Done((_card, c2)) ==> c <= c2,
    decreases n, 1int, 0int,
{
    if let Some(bi) = field_index(n, "body"@) {
        if 0 <= bi < n.children@.len() {
            lemma_block(n.children@[bi], known, c);
            law_expression_counter_grows(n.children@[bi], known, c);
        }
    }
}

proof fn lemma_postfix_base(n: SyntaxNode, known: Known, c: u64)
    ensures
        spec_postfix_base(n, known, c) matches Outcome::Done((_card, c2)) ==> c <= c2,
    decreases n, 2int, 0int,
{
    lemma_call(n, known, c);
}

proof fn lemma_segments(n: SyntaxNode, f: int, j: int, known: Known, c: u64)
    ensures
        segments_upto(n, f, j, known, c) matches Outcome::Done((_card, c2)) ==> c <= c2,
    decreases n, 0int, j,
{
    if j <= f + 1 || n.children@.len() < j || f < 0 {
        if 0 <= f < n.children@.len() {
            lemma_postfix_base(n.children@[f], known, c);
        }
    } else {
        lemma_segments(n, f, j - 1, known, c);
        if let Outcome::Done((_acc, c1)) = segments_upto(n, f, j - 1, known, c) {
            law_expression_counter_grows(n.children@[j - 1], known, c1);
        }
    }
}

proof fn lemma_postfix(n: SyntaxNode, known: Known, c: u64)
    ensures
        spec_postfix(n, known, c) matches Outcome::Done((_card, c2)) ==> c <= c2,
    decreases n, 1int, 0int,
{
    if let Some(f) = named_index(n, 0) {
        lemma_segments(n, f, n.children@.len() as int, known, c);
    }
}

proof fn lemma_postfix_target(n: SyntaxNode, known: Known, c: u64)
    ensures
        spec_postfix_target(n, known, c) matches Outcome::Done((_pair, c2)) ==> c <= c2,
    decreases n, 1int, 0int,
{
    let m = named_count(n);
    if m >= 2 {
        if let (Some(f), Some(l)) = (named_index(n, 0), named_index(n, m - 1)) {
            if 0 <= l < n.children@.len() {
                lemma_segments(n, f, l, known, c);
                if let Outcome::Done((_t, c1)) = segments_upto(n, f, l, known, c) {
                    law_expression_counter_grows(n.children@[l], known, c1);
                }
            }
        }
    }
}

proof fn lemma_args(n: SyntaxNode, j: int, known: Known, c: u64)
    ensures
        args_upto(n, j, known, c) matches Outcome::Done((_cards, c2)) ==> c <= c2,
    decreases n, 0int, j,
{
    if !(j <= 0 || n.children@.len() < j) {
        lemma_args(n, j - 1, known, c);
        if let Outcome::Done((_cs, c1)) = args_upto(n, j - 1, known, c) {
            law_expression_counter_grows(n.children@[j - 1], known, c1);
        }
    }
}

proof fn lemma_call(n: SyntaxNode, known: Known, c: u64)
    ensures
        spec_call(n, known, c) matches Outcome::Done((_card, c2)) ==> c <= c2,
    decreases n, 1int, 0int,
{
    lemma_args(n, n.children@.len() as int, known, c);
}

proof fn lemma_statements(n: SyntaxNode, j: int, known: Known, c: u64)
    ensures
        statements_upto(n, j, known, c) matches Outcome::Done((_cards, c2)) ==> c <= c2,
    decreases n, 0int, j,
{
    if !(j <= 0 || n.children@.len() < j) {
        lemma_statements(n, j - 1, known, c);
        if let Outcome::Done((_cs, c1)) = statements_upto(n, j - 1, known, c) {
            law_statement_counter_grows(n.children@[j - 1], known, c1);
        }
    }
}

proof fn lemma_block(n: SyntaxNode, known: Known, c: u64)
    ensures
        spec_block(n, known, c) matches Outcome::Done((_cards, c2)) ==> c <= c2,
    decreases n, 1int, 0int,
{
    lemma_statements(n, n.children@.len() as int, known, c);
}

proof fn lemma_block_single(n: SyntaxNode, known: Known, c: u64)
    ensures
        spec_block_single(n, known, c) matches Outcome::Done((_card, c2)) ==> c <= c2,
    decreases n, 2int, 0int,
{
    lemma_block(n, known, c);
}

/// Lowering a statement never moves the table counter back.
pub proof fn law_statement_counter_grows(n: SyntaxNode, known: Known, c: u64)
    ensures
        spec_statement(n, known, c) matches Outcome::Done((_card, c2)) ==> c <= c2,
    decreases n, 0int, 0int,
{
    let len = n.children@.len();
    if n.kind@ == "return_statement"@ {
        if let Some(j) = named_index(n, 0) {
            if 0 <= j < len {
                law_expression_counter_grows(n.children@[j], known, c);
            }
        }
    } else if n.kind@ == "global_var_statement"@ || n.kind@ == "local_var_statement"@ {
        if let Some(i) = field_index(n, "value"@) {
            if 0 <= i < len {
                law_expression_counter_grows(n.children@[i], known, c);
            }
        }
    } else if n.kind@ == "set_property_statement"@ {
        if let (Some(t), Some(i)) = (field_index(n, "target"@), field_index(n, "value"@)) {
            if 0 <= t < len && 0 <= i < len {
                law_expression_counter_grows(n.children@[i], known, c);
                if let Outcome::Done((_x, c1)) = spec_expression(n.children@[i], known, c) {
                    lemma_postfix_target(n.children@[t], known, c1);
                }
            }
        }
    } else if n.kind@ == "expression_statement"@ {
        if let Some(j) = named_index(n, 0) {
            if 0 <= j < len {
                law_expression_counter_grows(n.children@[j], known, c);
            }
        }
    } else if n.kind@ == "while_statement"@ {
        if let (Some(i), Some(b)) = (field_index(n, "condition"@), field_index(n, "body"@)) {
            if 0 <= i < len && 0 <= b < len {
                law_expression_counter_grows(n.children@[i], known, c);
                if let Outcome::Done((_x, c1)) = spec_expression(n.children@[i], known, c) {
                    lemma_block_single(n.children@[b], known, c1);
                }
            }
        }
    } else if n.kind@ == "repeat_statement"@ {
        if let (Some(i), Some(b)) = (field_index(n, "count"@), field_index(n, "body"@)) {
            if 0 <= i < len && 0 <= b < len {
                law_expression_counter_grows(n.children@[i], known, c);
                if let Outcome::Done((_x, c1)) = spec_expression(n.children@[i], known, c) {
                    lemma_block_single(n.children@[b], known, c1);
                }
            }
        }
    } else if n.kind@ == "foreach_statement"@ {
        if let (Some(i), Some(b)) = (field_index(n, "iterable"@), field_index(n, "body"@)) {
            if 0 <= i < len && 0 <= b < len {
                law_expression_counter_grows(n.children@[i], known, c);
                if let Outcome::Done((_x, c1)) = spec_expression(n.children@[i], known, c) {
                    lemma_block_single(n.children@[b], known, c1);
                }
            }
        }
    }
}

/// Lowering a block never moves the table counter back.
pub proof fn law_block_counter_grows(n: SyntaxNode, known: Known, c: u64)
    ensures
        spec_block(n, known, c) matches Outcome::Done((_cards, c2)) ==> c <= c2,
    decreases n, 1int, 0int,
{
    lemma_block(n, known, c);
}

} // verus!

verus! {

/// A call of a function defined in the module being lowered becomes a static
/// call; a call of any other name becomes a call of a native function.
pub proof fn law_call_target(n: SyntaxNode, known: Known, c: u64)
    ensures
        spec_call(n, known, c) matches Outcome::Done((card, _c2)) ==> match card {
            SpecCard::CallFunction(name, _args) => known.contains(name),
            SpecCard::CallNative(name, _args) => !known.contains(name),
            _ => false,
        },
{
}

proof fn lemma_fields_start(n: SyntaxNode, j: int, tmp: Seq<char>, known: Known, c: u64)
    ensures
        fields_upto(n, j, tmp, known, c) matches Outcome::Done((cards, _c2)) ==> cards.len() >= 1
            && cards[0] == SpecCard::SetVar(tmp, Box::new(SpecCard::CreateTable)),
    decreases j,
{
    if !(j <= 0 || n.children@.len() < j) {
        lemma_fields_start(n, j - 1, tmp, known, c);
    }
}

/// A table literal becomes one composite card that first stores a new table in
/// its temporary and last reads the temporary back.
pub proof fn law_table_literal_shape(n: SyntaxNode, known: Known, c: u64)
    ensures
        spec_table(n, known, c) matches Outcome::Done((card, _c2)) ==> match card {
            SpecCard::CompositeCard(name, cards) => name == "table_literal"@ && cards.len() >= 2
                && cards[0] == SpecCard::SetVar(tmp_name(c), Box::new(SpecCard::CreateTable))
                && cards.last() == SpecCard::ReadVar(tmp_name(c)),
            _ => false,
        },
{
    if c < u64::MAX {
        lemma_fields_start(n, n.children@.len() as int, tmp_name(c), known, (c + 1) as u64);
    }
}

/// A closure whose body is an expression returns that expression's value: its
/// function body is the one card that returns the lowered expression, and the
/// closure leaves the counter where the expression left it.
pub proof fn law_arrow_closure_returns(n: SyntaxNode, known: Known, c: u64)
    requires
        field_index(n, "body"@) matches Some(b) && 0 <= b < n.children@.len()
            && n.children@[b].kind@ == "expression"@,
    ensures
        spec_closure(n, known, c) matches Outcome::Done((card, c2)) ==> match spec_expression(
            n.children@[field_index(n, "body"@)->0],
            known,
            c,
        ) {
            Outcome::Done((value, c3)) => c3 == c2 && match card {
                SpecCard::Closure(f) => f.cards == seq![SpecCard::Return(Box::new(value))],
                _ => false,
            },
            _ => false,
        },
{
    let b = field_index(n, "body"@)->0;
    if n.children@[b].kind@ == "block"@ {
        reveal_strlit("block");
        reveal_strlit("expression");
        assert("block"@[0] != "expression"@[0]);
    }
}

} // verus!

verus! {

/// Each binding of a `foreach` statement is carried into its card: the card's
/// `i`, `k` and `v` are the texts of the children of the bindings node under
/// the fields `i`, `k` and `v`, and absent where there is no such child.
pub proof fn law_foreach_bindings(n: SyntaxNode, known: Known, c: u64)
    requires
        n.kind@ == "foreach_statement"@,
    ensures
        spec_statement(n, known, c) matches Outcome::Done((card, _c2)) ==> match card {
            SpecCard::ForEach { i, k, v, iterable: _, body: _ } => {
                let b = n.children@[field_index(n, "bindings"@)->0];
                &&& binding_carried(b, "i"@, i)
                &&& binding_carried(b, "k"@, k)
                &&& binding_carried(b, "v"@, v)
            },
            _ => false,
        },
{
    reveal_strlit("foreach_statement");
    reveal_strlit("return_statement");
    reveal_strlit("global_var_statement");
    reveal_strlit("local_var_statement");
    reveal_strlit("set_property_statement");
    reveal_strlit("expression_statement");
    reveal_strlit("while_statement");
    reveal_strlit("repeat_statement");
    assert("return_statement"@.len() != "foreach_statement"@.len());
    assert(n.kind@ != "return_statement"@);
    assert("global_var_statement"@.len() != "foreach_statement"@.len());
    assert(n.kind@ != "global_var_statement"@);
    assert("local_var_statement"@.len() != "foreach_statement"@.len());
    assert(n.kind@ != "local_var_statement"@);
    assert("set_property_statement"@.len() != "foreach_statement"@.len());
    assert(n.kind@ != "set_property_statement"@);
    assert("expression_statement"@.len() != "foreach_statement"@.len());
    assert(n.kind@ != "expression_statement"@);
    assert("while_statement"@.len() != "foreach_statement"@.len());
    assert(n.kind@ != "while_statement"@);
    assert("repeat_statement"@.len() != "foreach_statement"@.len());
    assert(n.kind@ != "repeat_statement"@);
    if let Some(bi) = field_index(n, "bindings"@) {
        if 0 <= bi < n.children@.len() {
            let b = n.children@[bi];
            crate::syntax::lemma_field_index_from_bounds(b.children@, 0, "i"@);
            crate::syntax::lemma_field_index_from_bounds(b.children@, 0, "k"@);
            crate::syntax::lemma_field_index_from_bounds(b.children@, 0, "v"@);
        }
    }
}

/// Whether `x` is the text of the child of `b` under field `f`, or nothing when
/// `b` has no child under `f`.
pub open spec fn binding_carried(b: SyntaxNode, f: Seq<char>, x: Option<Seq<char>>) -> bool {
    match field_index(b, f) {
        Some(j) => x == Some(b.children@[j].text@),
        None => x is None,
    }
}

/// The base of a postfix expression that is a call lowers exactly as that call
/// does, so `f().x` reads a property of what `f()` returns.
pub proof fn law_postfix_base_call(n: SyntaxNode, known: Known, c: u64)
    requires
        n.kind@ == "call_expression"@,
    ensures
        spec_postfix_base(n, known, c) == spec_call(n, known, c),
{
    reveal_strlit("call_expression");
    reveal_strlit("identifier");
    assert("call_expression"@.len() != "identifier"@.len());
    assert(n.kind@ != "identifier"@);
}

/// Joining a path with dots: one part is itself, and two nonempty runs of parts
/// join to their joins with one `.` in between; so the result holds every part,
/// in order, with one `.` between consecutive parts.
pub proof fn law_join_dot(p: Seq<char>, a: Seq<Seq<char>>, b: Seq<Seq<char>>)
    ensures
        join_dot(seq![p]) == p,
        join_dot(Seq::<Seq<char>>::empty()) == Seq::<char>::empty(),
        a.len() > 0 && b.len() > 0 ==> join_dot(a + b) == join_dot(a) + "."@ + join_dot(b),
    decreases b.len(),
{
    if a.len() > 0 && b.len() > 0 {
        if b.len() == 1 {
            assert((a + b).drop_last() =~= a);
            assert((a + b).last() == b[0]);
            assert(join_dot(b) == b[0]);
        } else {
            let b1 = b.drop_last();
            law_join_dot(p, a, b1);
            assert((a + b).drop_last() =~= a + b1);
            assert((a + b).last() == b.last());
            assert(join_dot(a + b) == join_dot(a + b1) + "."@ + b.last());
            assert(join_dot(b) == join_dot(b1) + "."@ + b.last());
            assert(join_dot(a + b) =~= join_dot(a) + "."@ + join_dot(b));
        }
    }
}

/// Number of named nodes in `ch` from `s` up to (not including) `j`.
pub open spec fn named_between(ch: Seq<SyntaxNode>, s: int, j: int) -> nat
    decreases j - s,
{
    if s >= j || s < 0 || j > ch.len() {
        0
    } else {
        (if ch[s].named { 1nat } else { 0nat }) + named_between(ch, s + 1, j)
    }
}

proof fn lemma_named_between_step(ch: Seq<SyntaxNode>, s: int, j: int)
    requires
        0 <= s <= j < ch.len(),
    ensures
        named_between(ch, s, j + 1) == named_between(ch, s, j) + (if ch[j].named { 1nat } else { 0nat }),
    decreases j - s,
{
    if s < j {
        lemma_named_between_step(ch, s + 1, j);
    } else {
        assert(named_between(ch, j + 1, j + 1) == 0);
        assert(named_between(ch, j, j) == 0);
    }
}

proof fn lemma_named_between_count(ch: Seq<SyntaxNode>, s: int)
    requires
        0 <= s <= ch.len(),
    ensures
        named_between(ch, s, ch.len() as int) == named_count_from(ch, s),
    decreases ch.len() - s,
{
    if s < ch.len() {
        lemma_named_between_count(ch, s + 1);
    }
}

proof fn lemma_index_of_named(ch: Seq<SyntaxNode>, s: int, j: int)
    requires
        0 <= s <= j < ch.len(),
        ch[j].named,
    ensures
        named_index_from(ch, s, named_between(ch, s, j) as int) == Some(j),
    decreases j - s,
{
    if s < j {
        lemma_index_of_named(ch, s + 1, j);
    }
}

proof fn lemma_named_texts_upto(n: SyntaxNode, j: int)
    requires
        0 <= j <= n.children@.len(),
    ensures
        named_texts_upto(n, j).len() == named_between(n.children@, 0, j),
        forall|k: int|
            0 <= k < named_texts_upto(n, j).len() ==> #[trigger] named_texts_upto(n, j)[k]
                == n.children@[named_index(n, k)->0].text@,
    decreases j,
{
    let ch = n.children@;
    if j > 0 {
        lemma_named_texts_upto(n, j - 1);
        lemma_named_between_step(ch, 0, j - 1);
        let prev = named_texts_upto(n, j - 1);
        let cur = named_texts_upto(n, j);
        if ch[j - 1].named {
            lemma_index_of_named(ch, 0, j - 1);
            assert(cur == prev.push(ch[j - 1].text@));
            assert forall|k: int| 0 <= k < cur.len() implies #[trigger] cur[k]
                == n.children@[named_index(n, k)->0].text@ by {
                if k < prev.len() {
                    assert(cur[k] == prev[k]);
                } else {
                    assert(k == prev.len());
                    assert(named_index(n, k) == Some(j - 1));
                }
            }
        } else {
            assert(cur == prev);
            assert forall|k: int| 0 <= k < cur.len() implies #[trigger] cur[k]
                == n.children@[named_index(n, k)->0].text@ by {
                assert(cur[k] == prev[k]);
            }
        }
    } else {
        assert(named_texts_upto(n, j) =~= Seq::<Seq<char>>::empty());
    }
}

/// The texts of the named children of a node, in order: one per named child,
/// the `k`-th being the text of the `k`-th named child. These are the parts of
/// an import path and the parameters of a function or closure.
pub proof fn law_named_texts(n: SyntaxNode)
    ensures
        named_texts(n).len() == named_count(n),
        forall|k: int| 0 <= k < named_count(n) ==> (#[trigger] named_index(n, k)) is Some,
        forall|k: int|
            0 <= k < named_count(n) ==> #[trigger] named_texts(n)[k]
                == n.children@[named_index(n, k)->0].text@,
{
    let len = n.children@.len() as int;
    lemma_named_texts_upto(n, len);
    lemma_named_between_count(n.children@, 0);
    assert forall|k: int| 0 <= k < named_count(n) implies (#[trigger] named_index(n, k)) is Some by {
        crate::syntax::lemma_named_count_index(n.children@, 0, k);
    }
    assert forall|k: int| 0 <= k < named_count(n) implies #[trigger] named_texts(n)[k]
        == n.children@[named_index(n, k)->0].text@ by {
        assert(named_texts(n)[k] == named_texts_upto(n, len)[k]);
    }
}

/// An import lowers to the texts of the named children of its path, in order,
/// joined with dots.
pub proof fn law_import_path(n: SyntaxNode)
    requires
        field_index(n, "path"@) matches Some(i) && 0 <= i < n.children@.len(),
    ensures
        ({
            let path = n.children@[field_index(n, "path"@)->0];
            let parts = Seq::new(
                named_count(path),
                |k: int| path.children@[named_index(path, k)->0].text@,
            );
            spec_import(n) == Some(join_dot(parts))
        }),
{
    let path = n.children@[field_index(n, "path"@)->0];
    law_named_texts(path);
    let parts = Seq::new(
        named_count(path),
        |k: int| path.children@[named_index(path, k)->0].text@,
    );
    assert(named_texts(path) =~= parts);
}

} // verus!
