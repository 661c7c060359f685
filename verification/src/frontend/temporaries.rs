//! The temporaries of table literals: within one function, each table literal
//! gets a temporary of its own.
use vstd::prelude::*;
use crate::cards::SpecCard;
use crate::frontend::laws::law_tmp_names_distinct;
use crate::frontend::model::{
    args_upto, exprs_upto, fields_upto, segments_upto, spec_array, spec_binary, spec_block,
    spec_block_single, spec_call, spec_closure, spec_expression, spec_expression_block,
    spec_expression_inner, spec_function_definition, spec_if, spec_postfix, spec_postfix_base,
    spec_postfix_target, spec_statement, spec_table, statements_upto, table_key, tmp_name, Known,
    Outcome,
};
use crate::syntax::{field_index, named_count, named_index, SyntaxNode};

verus! {

/// The temporaries of the table literals in a card, in order. A table literal
/// is a composite card named `table_literal` whose first card stores a new
/// table in its temporary.
pub open spec fn card_temps(c: SpecCard) -> Seq<Seq<char>>
    decreases c, 0int,
{
    match c {
        SpecCard::ReadVar(_n) => Seq::empty(),
        SpecCard::ScalarInt(_v) => Seq::empty(),
        SpecCard::ScalarFloat(_t) => Seq::empty(),
        SpecCard::StringLiteral(_s) => Seq::empty(),
        SpecCard::CreateTable => Seq::empty(),
        SpecCard::Add(a, b) => card_temps(*a) + card_temps(*b),
        SpecCard::Sub(a, b) => card_temps(*a) + card_temps(*b),
        SpecCard::Mul(a, b) => card_temps(*a) + card_temps(*b),
        SpecCard::Div(a, b) => card_temps(*a) + card_temps(*b),
        SpecCard::Less(a, b) => card_temps(*a) + card_temps(*b),
        SpecCard::LessOrEq(a, b) => card_temps(*a) + card_temps(*b),
        SpecCard::Equals(a, b) => card_temps(*a) + card_temps(*b),
        SpecCard::NotEquals(a, b) => card_temps(*a) + card_temps(*b),
        SpecCard::IfTrue(a, b) => card_temps(*a) + card_temps(*b),
        SpecCard::IfElse(a, b, e) => card_temps(*a) + card_temps(*b) + card_temps(*e),
        SpecCard::Array(cs) => cards_temps_upto(cs, cs.len() as int),
        SpecCard::SetVar(_n, v) => card_temps(*v),
        SpecCard::SetGlobalVar(_n, v) => card_temps(*v),
        SpecCard::SetProperty { value, table, key } => card_temps(*value) + card_temps(*table)
            + card_temps(*key),
        SpecCard::GetProperty { table, key } => card_temps(*table) + card_temps(*key),
        SpecCard::Get(a, b) => card_temps(*a) + card_temps(*b),
        SpecCard::CompositeCard(name, cs) => {
            let inner = cards_temps_upto(cs, cs.len() as int);
            if name == "table_literal"@ && cs.len() > 0 {
                match cs[0] {
                    SpecCard::SetVar(t, _v) => seq![t] + inner,
                    _ => inner,
                }
            } else {
                inner
            }
        },
        SpecCard::Closure(f) => cards_temps_upto(f.cards, f.cards.len() as int),
        SpecCard::Return(a) => card_temps(*a),
        SpecCard::CallFunction(_n, cs) => cards_temps_upto(cs, cs.len() as int),
        SpecCard::CallNative(_n, cs) => cards_temps_upto(cs, cs.len() as int),
        SpecCard::While(a, b) => card_temps(*a) + card_temps(*b),
        SpecCard::Repeat { count, var: _v, body } => card_temps(*count) + card_temps(*body),
        SpecCard::ForEach { i: _i, k: _k, v: _v, iterable, body } => card_temps(*iterable)
            + card_temps(*body),
    }
}

/// The temporaries of the first `j` cards of `s`, in order.
pub open spec fn cards_temps_upto(s: Seq<SpecCard>, j: int) -> Seq<Seq<char>>
    decreases s, j,
{
    if j <= 0 || s.len() < j {
        Seq::empty()
    } else {
        cards_temps_upto(s, j - 1) + card_temps(s[j - 1])
    }
}

/// The temporaries of a sequence of cards, in order.
pub open spec fn cards_temps(s: Seq<SpecCard>) -> Seq<Seq<char>> {
    cards_temps_upto(s, s.len() as int)
}

/// The temporaries numbered `c` up to (not including) `d`.
pub open spec fn numbered(c: u64, d: u64) -> Seq<Seq<char>> {
    Seq::new((d - c) as nat, |k: int| tmp_name((c + k) as u64))
}

proof fn lemma_upto_prefix(s: Seq<SpecCard>, t: Seq<SpecCard>, j: int)
    requires
        0 <= j <= s.len(),
        j <= t.len(),
        s.subrange(0, j) == t.subrange(0, j),
    ensures
        cards_temps_upto(s, j) == cards_temps_upto(t, j),
    decreases j,
{
    if j > 0 {
        assert(s[j - 1] == s.subrange(0, j)[j - 1]);
        assert(t[j - 1] == t.subrange(0, j)[j - 1]);
        assert(s.subrange(0, j - 1) =~= s.subrange(0, j).subrange(0, j - 1));
        assert(t.subrange(0, j - 1) =~= t.subrange(0, j).subrange(0, j - 1));
        lemma_upto_prefix(s, t, j - 1);
    }
}

proof fn lemma_temps_push(s: Seq<SpecCard>, x: SpecCard)
    ensures
        cards_temps(s.push(x)) == cards_temps(s) + card_temps(x),
{
    assert(s.push(x).subrange(0, s.len() as int) =~= s.subrange(0, s.len() as int));
    lemma_upto_prefix(s.push(x), s, s.len() as int);
    assert(s.push(x)[s.len() as int] == x);
}

proof fn lemma_temps_single(x: SpecCard)
    ensures
        cards_temps(seq![x]) == card_temps(x),
{
    assert(seq![x] =~= Seq::<SpecCard>::empty().push(x));
    lemma_temps_push(Seq::empty(), x);
    assert(cards_temps(Seq::<SpecCard>::empty()) =~= Seq::empty());
    assert(Seq::<Seq<char>>::empty() + card_temps(x) =~= card_temps(x));
}

proof fn lemma_numbered_concat(a: u64, b: u64, d: u64)
    requires
        a <= b <= d,
    ensures
        numbered(a, b) + numbered(b, d) == numbered(a, d),
{
    assert(numbered(a, b) + numbered(b, d) =~= numbered(a, d));
}

proof fn lemma_numbered_empty(a: u64)
    ensures
        numbered(a, a) == Seq::<Seq<char>>::empty(),
{
    assert(numbered(a, a) =~= Seq::<Seq<char>>::empty());
}

/// What every lowering step below states: the counter moves from `c` to `d`,
/// and the cards made carry exactly the temporaries numbered in between.
pub open spec fn numbers_used(temps: Seq<Seq<char>>, c: u64, d: u64) -> bool {
    c <= d && temps == numbered(c, d)
}

proof fn lemma_pair(t1: Seq<Seq<char>>, t2: Seq<Seq<char>>, a: u64, b: u64, d: u64)
    requires
        numbers_used(t1, a, b),
        numbers_used(t2, b, d),
    ensures
        numbers_used(t1 + t2, a, d),
{
    lemma_numbered_concat(a, b, d);
}

proof fn lemma_empty(a: u64)
    ensures
        numbers_used(Seq::empty(), a, a),
{
    lemma_numbered_empty(a);
}

pub proof fn lemma_expression_temps(n: SyntaxNode, known: Known, c: u64)
    ensures
        spec_expression(n, known, c) matches Outcome::Done((card, c2)) ==> numbers_used(
            card_temps(card),
            c,
            c2,
        ),
    decreases n, 0int, 0int,
{
    match named_index(n, 0) {
        Some(j) => if 0 <= j < n.children@.len() {
            lemma_inner(n.children@[j], known, c);
        },
        None => {},
    }
}

proof fn lemma_inner(n: SyntaxNode, known: Known, c: u64)
    ensures
        spec_expression_inner(n, known, c) matches Outcome::Done((card, c2)) ==> numbers_used(
            card_temps(card),
            c,
            c2,
        ),
    decreases n, 2int, 0int,
{
    lemma_empty(c);
    lemma_call(n, known, c);
    lemma_postfix(n, known, c);
    lemma_binary(n, known, c);
    lemma_if(n, known, c);
    lemma_array(n, known, c);
    lemma_table(n, known, c);
    lemma_closure(n, known, c);
}

proof fn lemma_binary(n: SyntaxNode, known: Known, c: u64)
    ensures
        spec_binary(n, known, c) matches Outcome::Done((card, c2)) ==> numbers_used(
            card_temps(card),
            c,
            c2,
        ),
    decreases n, 1int, 0int,
{
    let len = n.children@.len();
    if let (Some(li), Some(ri)) = (field_index(n, "left"@), field_index(n, "right"@)) {
        if 0 <= li < len && 0 <= ri < len {
            lemma_expression_temps(n.children@[li], known, c);
            if let Outcome::Done((l, c1)) = spec_expression(n.children@[li], known, c) {
                lemma_expression_temps(n.children@[ri], known, c1);
                if let Outcome::Done((r, c2)) = spec_expression(n.children@[ri], known, c1) {
                    lemma_pair(card_temps(l), card_temps(r), c, c1, c2);
                }
            }
        }
    }
}

proof fn lemma_if(n: SyntaxNode, known: Known, c: u64)
    ensures
        spec_if(n, known, c) matches Outcome::Done((card, c2)) ==> numbers_used(
            card_temps(card),
            c,
            c2,
        ),
    decreases n, 1int, 0int,
{
    let len = n.children@.len();
    if let (Some(ci), Some(ti)) = (field_index(n, "condition"@), field_index(n, "consequence"@)) {
        if 0 <= ci < len && 0 <= ti < len {
            lemma_expression_temps(n.children@[ci], known, c);
            if let Outcome::Done((x, c1)) = spec_expression(n.children@[ci], known, c) {
                lemma_expression_block(n.children@[ti], known, c1);
                if let Outcome::Done((y, c2)) = spec_expression_block(n.children@[ti], known, c1) {
                    lemma_pair(card_temps(x), card_temps(y), c, c1, c2);
                    if let Some(ai) = field_index(n, "alternative"@) {
                        if 0 <= ai < len {
                            lemma_expression_block(n.children@[ai], known, c2);
                            if let Outcome::Done((z, c3)) = spec_expression_block(
                                n.children@[ai],
                                known,
                                c2,
                            ) {
                                lemma_pair(card_temps(x) + card_temps(y), card_temps(z), c, c2, c3);
                            }
                        }
                    }
                }
            }
        }
    }
}

proof fn lemma_expression_block(n: SyntaxNode, known: Known, c: u64)
    ensures
        spec_expression_block(n, known, c) matches Outcome::Done((card, c2)) ==> numbers_used(
            card_temps(card),
            c,
            c2,
        ),
    decreases n, 1int, 0int,
{
    match named_index(n, 0) {
        Some(j) => if 0 <= j < n.children@.len() {
            lemma_expression_temps(n.children@[j], known, c);
        },
        None => {},
    }
}

proof fn lemma_exprs(n: SyntaxNode, j: int, known: Known, c: u64)
    ensures
        exprs_upto(n, j, known, c) matches Outcome::Done((cards, c2)) ==> numbers_used(
            cards_temps(cards),
            c,
            c2,
        ),
    decreases n, 0int, j,
{
    if j <= 0 || n.children@.len() < j {
        lemma_empty(c);
        assert(cards_temps(Seq::<SpecCard>::empty()) =~= Seq::empty());
    } else {
        lemma_exprs(n, j - 1, known, c);
        if let Outcome::Done((cs, c1)) = exprs_upto(n, j - 1, known, c) {
            let ch = n.children@[j - 1];
            if ch.named {
                lemma_expression_temps(ch, known, c1);
                if let Outcome::Done((card, c2)) = spec_expression(ch, known, c1) {
                    lemma_temps_push(cs, card);
                    lemma_pair(cards_temps(cs), card_temps(card), c, c1, c2);
                }
            }
        }
    }
}

proof fn lemma_array(n: SyntaxNode, known: Known, c: u64)
    ensures
        spec_array(n, known, c) matches Outcome::Done((card, c2)) ==> numbers_used(
            card_temps(card),
            c,
            c2,
        ),
    decreases n, 1int, 0int,
{
    lemma_exprs(n, n.children@.len() as int, known, c);
}

proof fn lemma_fields(n: SyntaxNode, j: int, tmp: Seq<char>, known: Known, c: u64)
    ensures
        fields_upto(n, j, tmp, known, c) matches Outcome::Done((cards, c2)) ==> cards.len() >= 1
            && cards[0] == SpecCard::SetVar(tmp, Box::new(SpecCard::CreateTable))
            && numbers_used(cards_temps(cards), c, c2),
    decreases n, 0int, j,
{
    if j <= 0 || n.children@.len() < j {
        let x = SpecCard::SetVar(tmp, Box::new(SpecCard::CreateTable));
        lemma_temps_single(x);
        assert(card_temps(SpecCard::CreateTable) =~= Seq::empty());
        assert(card_temps(x) =~= Seq::empty());
        lemma_empty(c);
    } else {
        lemma_fields(n, j - 1, tmp, known, c);
        if let Outcome::Done((cs, c1)) = fields_upto(n, j - 1, tmp, known, c) {
            let fld = n.children@[j - 1];
            if fld.named {
                if let (Some(key), Some(vi)) = (table_key(fld), field_index(fld, "value"@)) {
                    if 0 <= vi < fld.children@.len() {
                        lemma_expression_temps(fld.children@[vi], known, c1);
                        if let Outcome::Done((value, c2)) = spec_expression(
                            fld.children@[vi],
                            known,
                            c1,
                        ) {
                            let card = SpecCard::SetProperty {
                                value: Box::new(value),
                                table: Box::new(SpecCard::ReadVar(tmp)),
                                key: Box::new(key),
                            };
                            assert(card_temps(key) =~= Seq::empty());
                            assert(card_temps(SpecCard::ReadVar(tmp)) =~= Seq::empty());
                            assert(card_temps(card) == card_temps(value) + card_temps(
                                SpecCard::ReadVar(tmp),
                            ) + card_temps(key));
                            assert(card_temps(card) =~= card_temps(value));
                            lemma_temps_push(cs, card);
                            lemma_pair(cards_temps(cs), card_temps(card), c, c1, c2);
                            assert(cs.push(card)[0] == cs[0]);
                        }
                    }
                }
            }
        }
    }
}

proof fn lemma_table(n: SyntaxNode, known: Known, c: u64)
    ensures
        spec_table(n, known, c) matches Outcome::Done((card, c2)) ==> numbers_used(
            card_temps(card),
            c,
            c2,
        ),
    decreases n, 1int, 0int,
{
    if c < u64::MAX {
        let tmp = tmp_name(c);
        let c0 = (c + 1) as u64;
        lemma_fields(n, n.children@.len() as int, tmp, known, c0);
        if let Outcome::Done((cs, c2)) = fields_upto(n, n.children@.len() as int, tmp, known, c0) {
            let all = cs.push(SpecCard::ReadVar(tmp));
            lemma_temps_push(cs, SpecCard::ReadVar(tmp));
            assert(all[0] == cs[0]);
            assert(cards_temps(all) =~= cards_temps(cs));
            assert(card_temps(SpecCard::CompositeCard("table_literal"@, all)) == seq![tmp]
                + cards_temps(all));
            assert(seq![tmp] + numbered(c0, c2) =~= numbered(c, c2));
        }
    }
}

proof fn lemma_closure(n: SyntaxNode, known: Known, c: u64)
    ensures
        spec_closure(n, known, c) matches Outcome::Done((card, c2)) ==> numbers_used(
            card_temps(card),
            c,
            c2,
        ),
    decreases n, 1int, 0int,
{
    if let Some(bi) = field_index(n, "body"@) {
        if 0 <= bi < n.children@.len() {
            let body = n.children@[bi];
            lemma_block(body, known, c);
            lemma_expression_temps(body, known, c);
            if let Outcome::Done((card, _c2)) = spec_expression(body, known, c) {
                lemma_temps_single(SpecCard::Return(Box::new(card)));
            }
        }
    }
}

proof fn lemma_postfix_base(n: SyntaxNode, known: Known, c: u64)
    ensures
        spec_postfix_base(n, known, c) matches Outcome::Done((card, c2)) ==> numbers_used(
            card_temps(card),
            c,
            c2,
        ),
    decreases n, 2int, 0int,
{
    lemma_empty(c);
    lemma_call(n, known, c);
}

proof fn lemma_segments(n: SyntaxNode, f: int, j: int, known: Known, c: u64)
    ensures
        segments_upto(n, f, j, known, c) matches Outcome::Done((card, c2)) ==> numbers_used(
            card_temps(card),
            c,
            c2,
        ),
    decreases n, 0int, j,
{
    if j <= f + 1 || n.children@.len() < j || f < 0 {
        if 0 <= f < n.children@.len() {
            lemma_postfix_base(n.children@[f], known, c);
        }
    } else {
        lemma_segments(n, f, j - 1, known, c);
        if let Outcome::Done((acc, c1)) = segments_upto(n, f, j - 1, known, c) {
            let seg = n.children@[j - 1];
            if seg.named && seg.kind@ == "identifier"@ {
                let key = SpecCard::StringLiteral(seg.text@);
                assert(card_temps(key) =~= Seq::empty());
                assert(card_temps(SpecCard::GetProperty { table: Box::new(acc), key: Box::new(key) })
                    =~= card_temps(acc));
            } else if seg.named {
                lemma_expression_temps(seg, known, c1);
                if let Outcome::Done((index, c2)) = spec_expression(seg, known, c1) {
                    lemma_pair(card_temps(acc), card_temps(index), c, c1, c2);
                }
            }
        }
    }
}

proof fn lemma_postfix(n: SyntaxNode, known: Known, c: u64)
    ensures
        spec_postfix(n, known, c) matches Outcome::Done((card, c2)) ==> numbers_used(
            card_temps(card),
            c,
            c2,
        ),
    decreases n, 1int, 0int,
{
    if let Some(f) = named_index(n, 0) {
        lemma_segments(n, f, n.children@.len() as int, known, c);
    }
}

proof fn lemma_postfix_target(n: SyntaxNode, known: Known, c: u64)
    ensures
        spec_postfix_target(n, known, c) matches Outcome::Done(((table, key), c2)) ==> numbers_used(
            card_temps(table) + card_temps(key),
            c,
            c2,
        ),
    decreases n, 1int, 0int,
{
    let m = named_count(n);
    if m >= 2 {
        if let (Some(f), Some(l)) = (named_index(n, 0), named_index(n, m - 1)) {
            if 0 <= l < n.children@.len() {
                lemma_segments(n, f, l, known, c);
                if let Outcome::Done((t, c1)) = segments_upto(n, f, l, known, c) {
                    let last = n.children@[l];
                    lemma_empty(c1);
                    lemma_pair(card_temps(t), Seq::empty(), c, c1, c1);
                    lemma_expression_temps(last, known, c1);
                    if let Outcome::Done((k, c2)) = spec_expression(last, known, c1) {
                        lemma_pair(card_temps(t), card_temps(k), c, c1, c2);
                    }
                }
            }
        }
    }
}

proof fn lemma_args(n: SyntaxNode, j: int, known: Known, c: u64)
    ensures
        args_upto(n, j, known, c) matches Outcome::Done((cards, c2)) ==> numbers_used(
            cards_temps(cards),
            c,
            c2,
        ),
    decreases n, 0int, j,
{
    if j <= 0 || n.children@.len() < j {
        lemma_empty(c);
        assert(cards_temps(Seq::<SpecCard>::empty()) =~= Seq::empty());
    } else {
        lemma_args(n, j - 1, known, c);
        if let Outcome::Done((cs, c1)) = args_upto(n, j - 1, known, c) {
            let ch = n.children@[j - 1];
            lemma_expression_temps(ch, known, c1);
            if let Outcome::Done((card, c2)) = spec_expression(ch, known, c1) {
                lemma_temps_push(cs, card);
                lemma_pair(cards_temps(cs), card_temps(card), c, c1, c2);
            }
        }
    }
}

proof fn lemma_call(n: SyntaxNode, known: Known, c: u64)
    ensures
        spec_call(n, known, c) matches Outcome::Done((card, c2)) ==> numbers_used(
            card_temps(card),
            c,
            c2,
        ),
    decreases n, 1int, 0int,
{
    lemma_args(n, n.children@.len() as int, known, c);
}

proof fn lemma_statements(n: SyntaxNode, j: int, known: Known, c: u64)
    ensures
        statements_upto(n, j, known, c) matches Outcome::Done((cards, c2)) ==> numbers_used(
            cards_temps(cards),
            c,
            c2,
        ),
    decreases n, 0int, j,
{
    if j <= 0 || n.children@.len() < j {
        lemma_empty(c);
        assert(cards_temps(Seq::<SpecCard>::empty()) =~= Seq::empty());
    } else {
        lemma_statements(n, j - 1, known, c);
        if let Outcome::Done((cs, c1)) = statements_upto(n, j - 1, known, c) {
            let ch = n.children@[j - 1];
            lemma_statement_temps(ch, known, c1);
            if let Outcome::Done((card, c2)) = spec_statement(ch, known, c1) {
                lemma_temps_push(cs, card);
                lemma_pair(cards_temps(cs), card_temps(card), c, c1, c2);
            }
        }
    }
}

/// The cards of a block carry exactly the temporaries numbered from where the
/// counter stood before the block to where it stands after.
pub proof fn lemma_block(n: SyntaxNode, known: Known, c: u64)
    ensures
        spec_block(n, known, c) matches Outcome::Done((cards, c2)) ==> numbers_used(
            cards_temps(cards),
            c,
            c2,
        ),
    decreases n, 1int, 0int,
{
    lemma_statements(n, n.children@.len() as int, known, c);
}

proof fn lemma_block_single(n: SyntaxNode, known: Known, c: u64)
    ensures
        spec_block_single(n, known, c) matches Outcome::Done((card, c2)) ==> numbers_used(
            card_temps(card),
            c,
            c2,
        ),
    decreases n, 2int, 0int,
{
    lemma_block(n, known, c);
    if let Outcome::Done((cards, _c1)) = spec_block(n, known, c) {
        if cards.len() == 1 {
            assert(cards =~= seq![cards[0]]);
            lemma_temps_single(cards[0]);
        } else {
            reveal_strlit("block");
            reveal_strlit("table_literal");
            assert("block"@.len() != "table_literal"@.len());
        }
    }
}

proof fn lemma_statement_temps(n: SyntaxNode, known: Known, c: u64)
    ensures
        spec_statement(n, known, c) matches Outcome::Done((card, c2)) ==> numbers_used(
            card_temps(card),
            c,
            c2,
        ),
    decreases n, 0int, 0int,
{
    let len = n.children@.len();
    if n.kind@ == "return_statement"@ {
        if let Some(j) = named_index(n, 0) {
            if 0 <= j < len {
                lemma_expression_temps(n.children@[j], known, c);
            }
        }
    } else if n.kind@ == "global_var_statement"@ || n.kind@ == "local_var_statement"@ {
        if let Some(i) = field_index(n, "value"@) {
            if 0 <= i < len {
                lemma_expression_temps(n.children@[i], known, c);
            }
        }
    } else if n.kind@ == "set_property_statement"@ {
        if let (Some(t), Some(i)) = (field_index(n, "target"@), field_index(n, "value"@)) {
            if 0 <= t < len && 0 <= i < len {
                lemma_expression_temps(n.children@[i], known, c);
                if let Outcome::Done((v, c1)) = spec_expression(n.children@[i], known, c) {
                    lemma_postfix_target(n.children@[t], known, c1);
                    if let Outcome::Done(((tb, k), c2)) = spec_postfix_target(
                        n.children@[t],
                        known,
                        c1,
                    ) {
                        lemma_pair(card_temps(v), card_temps(tb) + card_temps(k), c, c1, c2);
                        assert(card_temps(v) + card_temps(tb) + card_temps(k) =~= card_temps(v)
                            + (card_temps(tb) + card_temps(k)));
                    }
                }
            }
        }
    } else if n.kind@ == "expression_statement"@ {
        if let Some(j) = named_index(n, 0) {
            if 0 <= j < len {
                lemma_expression_temps(n.children@[j], known, c);
            }
        }
    } else if n.kind@ == "while_statement"@ {
        if let (Some(i), Some(b)) = (field_index(n, "condition"@), field_index(n, "body"@)) {
            if 0 <= i < len && 0 <= b < len {
                lemma_expression_temps(n.children@[i], known, c);
                if let Outcome::Done((x, c1)) = spec_expression(n.children@[i], known, c) {
                    lemma_block_single(n.children@[b], known, c1);
                    if let Outcome::Done((y, c2)) = spec_block_single(n.children@[b], known, c1) {
                        lemma_pair(card_temps(x), card_temps(y), c, c1, c2);
                    }
                }
            }
        }
    } else if n.kind@ == "repeat_statement"@ {
        if let (Some(i), Some(b)) = (field_index(n, "count"@), field_index(n, "body"@)) {
            if 0 <= i < len && 0 <= b < len {
                lemma_expression_temps(n.children@[i], known, c);
                if let Outcome::Done((x, c1)) = spec_expression(n.children@[i], known, c) {
                    lemma_block_single(n.children@[b], known, c1);
                    if let Outcome::Done((y, c2)) = spec_block_single(n.children@[b], known, c1) {
                        lemma_pair(card_temps(x), card_temps(y), c, c1, c2);
                    }
                }
            }
        }
    } else if n.kind@ == "foreach_statement"@ {
        if let (Some(i), Some(b)) = (field_index(n, "iterable"@), field_index(n, "body"@)) {
            if 0 <= i < len && 0 <= b < len {
                lemma_expression_temps(n.children@[i], known, c);
                if let Outcome::Done((x, c1)) = spec_expression(n.children@[i], known, c) {
                    lemma_block_single(n.children@[b], known, c1);
                    if let Outcome::Done((y, c2)) = spec_block_single(n.children@[b], known, c1) {
                        lemma_pair(card_temps(x), card_temps(y), c, c1, c2);
                    }
                }
            }
        }
    }
}

/// Within one function, no two table literals share a temporary: the
/// temporaries in the cards of a lowered function definition, closures
/// included, are pairwise distinct, and they are those numbered from zero on.
pub proof fn law_function_temps_distinct(n: SyntaxNode, known: Known)
    ensures
        spec_function_definition(n, known) matches Outcome::Done((_name, f)) ==> ({
            let temps = cards_temps(f.cards);
            &&& temps == numbered(0, temps.len() as u64)
            &&& forall|i: int, j: int|
                0 <= i < temps.len() && 0 <= j < temps.len() && i != j ==> temps[i] != temps[j]
        }),
{
    if let (Some(_a), Some(_p), Some(b)) = (named_index(n, 0), named_index(n, 1), named_index(n, 2)) {
        if 0 <= b < n.children@.len() {
            lemma_block(n.children@[b], known, 0);
            if let Outcome::Done((cards, c2)) = spec_block(n.children@[b], known, 0) {
                let temps = cards_temps(cards);
                assert(temps.len() == c2);
                assert forall|i: int, j: int|
                    0 <= i < temps.len() && 0 <= j < temps.len() && i != j implies temps[i]
                    != temps[j] by {
                    law_tmp_names_distinct(i as u64, j as u64);
                }
            }
        }
    }
}

} // verus!
