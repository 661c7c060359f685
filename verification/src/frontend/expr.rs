//! Lowering of expressions.
use vstd::prelude::*;
use crate::cards::{cards_view, lemma_cards_view_push, Card, Function};
use crate::frontend::error::{LowerError, Stop};
use crate::frontend::model::{
    args_upto, callee_parts_upto, card_outcome, exprs_upto, fields_upto, lemma_args_stuck,
    lemma_callee_parts_stuck, lemma_exprs_stuck, lemma_fields_stuck, lemma_segments_stuck,
    lemma_string_stuck, pair_outcome, segments_upto, spec_array, spec_binary, spec_block,
    spec_call, spec_callee, spec_closure, spec_decode_string, spec_expression,
    spec_expression_block, spec_expression_inner, spec_if, spec_postfix, spec_postfix_base,
    spec_postfix_target, spec_table, string_upto, table_key, Outcome,
};
use crate::frontend::stmt::convert_block;
use crate::frontend::{named_child_texts, text, unsupported, FnCtx};
use crate::literals::{decode_escape_checked, is_float_literal, parse_i64, spec_decode_escape};
use crate::syntax::{field_index, lemma_field_index_from_bounds, lemma_named_index_from_bounds, SyntaxNode};

verus! {

/// `node` is an `expression` node, which wraps exactly one node.
pub fn convert_expression(node: &SyntaxNode, ctx: &mut FnCtx) -> (res: Result<Card, Stop>)
    ensures
        card_outcome(res, final(ctx).tmp_counter) == spec_expression(
            *node,
            old(ctx).known(),
            old(ctx).tmp_counter,
        ),
        final(ctx).known_functions == old(ctx).known_functions,
    decreases node, 0int, 0int,
{
    proof {
        lemma_named_index_from_bounds(node.children@, 0, 0);
    }
    match node.named_child_index(0) {
        Some(j) => convert_expression_inner(&node.children[j], ctx),
        None => Err(Stop::Panics),
    }
}

fn convert_expression_inner(node: &SyntaxNode, ctx: &mut FnCtx) -> (res: Result<Card, Stop>)
    ensures
        card_outcome(res, final(ctx).tmp_counter) == spec_expression_inner(
            *node,
            old(ctx).known(),
            old(ctx).tmp_counter,
        ),
        final(ctx).known_functions == old(ctx).known_functions,
    decreases node, 2int, 0int,
{
    if node.is_kind("identifier") {
        Ok(Card::ReadVar(text(node)))
    } else if node.is_kind("integer") {
        match parse_i64(node.text.as_str()) {
            Some(v) => Ok(Card::ScalarInt(v)),
            None => Err(Stop::Error(LowerError::BadInteger { text: text(node) })),
        }
    } else if node.is_kind("float") {
        if is_float_literal(node.text.as_str()) {
            Ok(Card::ScalarFloat(text(node)))
        } else {
            Err(Stop::Error(LowerError::BadFloat { text: text(node) }))
        }
    } else if node.is_kind("string") {
        match decode_string(node) {
            Some(t) => Ok(Card::StringLiteral(t)),
            None => Err(Stop::Panics),
        }
    } else if node.is_kind("call_expression") {
        convert_call_expression(node, ctx)
    } else if node.is_kind("postfix_expression") {
        convert_postfix_expression(node, ctx)
    } else if node.is_kind("binary_expression") {
        convert_binary_expression(node, ctx)
    } else if node.is_kind("if_expression") {
        convert_if_expression(node, ctx)
    } else if node.is_kind("array_expression") {
        convert_array_expression(node, ctx)
    } else if node.is_kind("table_expression") {
        convert_table_expression(node, ctx)
    } else if node.is_kind("closure_expression") {
        convert_closure_expression(node, ctx)
    } else {
        Err(Stop::Error(unsupported(node)))
    }
}

/// The text a string literal stands for: its contents with escapes decoded;
/// `None` for a child that a string literal does not hold.
pub fn decode_string(node: &SyntaxNode) -> (r: Option<String>)
    ensures
        r is Some <==> spec_decode_string(*node) is Some,
        r matches Some(s) ==> s@ == spec_decode_string(*node)->0,
{
    let len = node.children.len();
    let mut out = String::new();
    let mut j: usize = 0;
    while j < len
        invariant
            len == node.children@.len(),
            j <= len,
            string_upto(*node, j as int) == Some(out@),
        decreases len - j,
    {
        let child = &node.children[j];
        if child.named {
            if child.is_kind("string_content") {
                out.append(child.text.as_str());
            } else if child.is_kind("escape_sequence") {
                match decode_escape_checked(child.text.as_str()) {
                    Some(e) => out.append(e.as_str()),
                    None => {
                        proof {
                            lemma_string_stuck(*node, j + 1, len as int);
                        }
                        return None;
                    },
                }
            } else {
                proof {
                    lemma_string_stuck(*node, j + 1, len as int);
                }
                return None;
            }
        }
        j = j + 1;
    }
    Some(out)
}

fn binary_card(op: &SyntaxNode, left: Card, right: Card) -> (r: Option<Card>)
    ensures
        r matches Some(card) ==> binary_card_spec_ok(op.text@, left@, right@, card@),
        r is None <==> crate::frontend::model::binary_card(op.text@, left@, right@) is None,
{
    let (l, r) = (Box::new(left), Box::new(right));
    proof {
        reveal_strlit("+");
        reveal_strlit("-");
        reveal_strlit("*");
        reveal_strlit("/");
        reveal_strlit("<");
        reveal_strlit("<=");
        reveal_strlit("==");
        reveal_strlit("!=");
    }
    let t = &op.text;
    if *t == String::from_str("+") {
        Some(Card::Add(l, r))
    } else if *t == String::from_str("-") {
        Some(Card::Sub(l, r))
    } else if *t == String::from_str("*") {
        Some(Card::Mul(l, r))
    } else if *t == String::from_str("/") {
        Some(Card::Div(l, r))
    } else if *t == String::from_str("<") {
        Some(Card::Less(l, r))
    } else if *t == String::from_str("<=") {
        Some(Card::LessOrEq(l, r))
    } else if *t == String::from_str("==") {
        Some(Card::Equals(l, r))
    } else if *t == String::from_str("!=") {
        Some(Card::NotEquals(l, r))
    } else {
        None
    }
}

pub open spec fn binary_card_spec_ok(op: Seq<char>, l: crate::cards::SpecCard, r: crate::cards::SpecCard, card: crate::cards::SpecCard) -> bool {
    crate::frontend::model::binary_card(op, l, r) == Some(card)
}

fn convert_binary_expression(node: &SyntaxNode, ctx: &mut FnCtx) -> (res: Result<Card, Stop>)
    ensures
        card_outcome(res, final(ctx).tmp_counter) == spec_binary(
            *node,
            old(ctx).known(),
            old(ctx).tmp_counter,
        ),
        final(ctx).known_functions == old(ctx).known_functions,
    decreases node, 1int, 0int,
{
    proof {
        lemma_field_index_from_bounds(node.children@, 0, "left"@);
        lemma_field_index_from_bounds(node.children@, 0, "operator"@);
        lemma_field_index_from_bounds(node.children@, 0, "right"@);
    }
    let li = match node.field_child_index("left") {
        Some(i) => i,
        None => return Err(Stop::Panics),
    };
    let left = convert_expression(&node.children[li], ctx)?;
    let oi = match node.field_child_index("operator") {
        Some(i) => i,
        None => return Err(Stop::Panics),
    };
    let ri = match node.field_child_index("right") {
        Some(i) => i,
        None => return Err(Stop::Panics),
    };
    let right = convert_expression(&node.children[ri], ctx)?;
    match binary_card(&node.children[oi], left, right) {
        Some(card) => Ok(card),
        None => Err(Stop::Panics),
    }
}

fn convert_if_expression(node: &SyntaxNode, ctx: &mut FnCtx) -> (res: Result<Card, Stop>)
    ensures
        card_outcome(res, final(ctx).tmp_counter) == spec_if(
            *node,
            old(ctx).known(),
            old(ctx).tmp_counter,
        ),
        final(ctx).known_functions == old(ctx).known_functions,
    decreases node, 1int, 0int,
{
    proof {
        lemma_field_index_from_bounds(node.children@, 0, "condition"@);
        lemma_field_index_from_bounds(node.children@, 0, "consequence"@);
        lemma_field_index_from_bounds(node.children@, 0, "alternative"@);
    }
    let ci = match node.field_child_index("condition") {
        Some(i) => i,
        None => return Err(Stop::Panics),
    };
    let cond = convert_expression(&node.children[ci], ctx)?;
    let ti = match node.field_child_index("consequence") {
        Some(i) => i,
        None => return Err(Stop::Panics),
    };
    let then = convert_expression_block(&node.children[ti], ctx)?;
    match node.field_child_index("alternative") {
        Some(ai) => {
            let els = convert_expression_block(&node.children[ai], ctx)?;
            Ok(Card::IfElse(Box::new(cond), Box::new(then), Box::new(els)))
        },
        None => Ok(Card::IfTrue(Box::new(cond), Box::new(then))),
    }
}

fn convert_expression_block(node: &SyntaxNode, ctx: &mut FnCtx) -> (res: Result<Card, Stop>)
    ensures
        card_outcome(res, final(ctx).tmp_counter) == spec_expression_block(
            *node,
            old(ctx).known(),
            old(ctx).tmp_counter,
        ),
        final(ctx).known_functions == old(ctx).known_functions,
    decreases node, 1int, 0int,
{
    proof {
        lemma_named_index_from_bounds(node.children@, 0, 0);
    }
    match node.named_child_index(0) {
        Some(j) => convert_expression(&node.children[j], ctx),
        None => Err(Stop::Panics),
    }
}

fn convert_array_expression(node: &SyntaxNode, ctx: &mut FnCtx) -> (res: Result<Card, Stop>)
    ensures
        card_outcome(res, final(ctx).tmp_counter) == spec_array(
            *node,
            old(ctx).known(),
            old(ctx).tmp_counter,
        ),
        final(ctx).known_functions == old(ctx).known_functions,
    decreases node, 1int, 0int,
{
    let ghost known = ctx.known();
    let ghost c0 = ctx.tmp_counter;
    let ghost kf = ctx.known_functions;
    let len = node.children.len();
    let mut cards: Vec<Card> = Vec::new();
    let mut j: usize = 0;
    while j < len
        invariant
            len == node.children@.len(),
            j <= len,
            ctx.known_functions == kf,
            kf == old(ctx).known_functions,
            known == ctx.known(),
            known == old(ctx).known(),
            c0 == old(ctx).tmp_counter,
            exprs_upto(*node, j as int, known, c0) == Outcome::Done(
                (cards_view(cards@), ctx.tmp_counter),
            ),
        decreases len - j,
    {
        let child = &node.children[j];
        if child.named {
            let ghost before = cards@;
            match convert_expression(child, ctx) {
                Ok(card) => {
                    cards.push(card);
                    proof {
                        lemma_cards_view_push(before, card);
                    }
                },
                Err(e) => {
                    proof {
                        lemma_exprs_stuck(*node, j + 1, len as int, known, c0);
                    }
                    return Err(e);
                },
            }
        }
        j = j + 1;
    }
    Ok(Card::Array(cards))
}

fn convert_table_expression(node: &SyntaxNode, ctx: &mut FnCtx) -> (res: Result<Card, Stop>)
    ensures
        card_outcome(res, final(ctx).tmp_counter) == spec_table(
            *node,
            old(ctx).known(),
            old(ctx).tmp_counter,
        ),
        final(ctx).known_functions == old(ctx).known_functions,
    decreases node, 1int, 0int,
{
    let ghost known = ctx.known();
    let ghost kf = ctx.known_functions;
    if ctx.tmp_counter == u64::MAX {
        return Err(Stop::Panics);
    }
    let tmp = ctx.fresh_tmp();
    let ghost c0 = ctx.tmp_counter;
    let len = node.children.len();
    let mut cards: Vec<Card> = Vec::new();
    cards.push(Card::SetVar(tmp.clone(), Box::new(Card::CreateTable)));
    proof {
        lemma_cards_view_push(Seq::empty(), Card::SetVar(tmp, Box::new(Card::CreateTable)));
        assert(Seq::<Card>::empty().push(Card::SetVar(tmp, Box::new(Card::CreateTable))) =~= cards@);
        assert(cards_view(Seq::<Card>::empty()) =~= Seq::empty());
        assert(Card::CreateTable@ == crate::cards::SpecCard::CreateTable);
        assert(cards_view(cards@) =~= seq![crate::cards::SpecCard::SetVar(tmp@, Box::new(crate::cards::SpecCard::CreateTable))]);
        assert(fields_upto(*node, 0, tmp@, known, c0) == Outcome::Done((cards_view(cards@), c0)));
    }
    let mut j: usize = 0;
    while j < len
        invariant
            len == node.children@.len(),
            j <= len,
            ctx.known_functions == kf,
            kf == old(ctx).known_functions,
            known == ctx.known(),
            known == old(ctx).known(),
            c0 == old(ctx).tmp_counter + 1,
            tmp@ == crate::frontend::model::tmp_name(old(ctx).tmp_counter),
            fields_upto(*node, j as int, tmp@, known, c0) == Outcome::Done(
                (cards_view(cards@), ctx.tmp_counter),
            ),
        decreases len - j,
    {
        let field = &node.children[j];
        if field.named {
            proof {
                lemma_field_index_from_bounds(field.children@, 0, "key"@);
                lemma_field_index_from_bounds(field.children@, 0, "value"@);
            }
            let key = match table_key_card(field) {
                Some(k) => k,
                None => {
                    proof {
                        lemma_fields_stuck(*node, j + 1, len as int, tmp@, known, c0);
                    }
                    return Err(Stop::Panics);
                },
            };
            let vi = match field.field_child_index("value") {
                Some(i) => i,
                None => {
                    proof {
                        lemma_fields_stuck(*node, j + 1, len as int, tmp@, known, c0);
                    }
                    return Err(Stop::Panics);
                },
            };
            let ghost before = cards@;
            match convert_expression(&field.children[vi], ctx) {
                Ok(value) => {
                    let card = Card::SetProperty {
                        value: Box::new(value),
                        table: Box::new(Card::ReadVar(tmp.clone())),
                        key: Box::new(key),
                    };
                    cards.push(card);
                    proof {
                        lemma_cards_view_push(before, card);
                        assert(Card::ReadVar(tmp)@ == crate::cards::SpecCard::ReadVar(tmp@));
                    }
                },
                Err(e) => {
                    proof {
                        lemma_fields_stuck(*node, j + 1, len as int, tmp@, known, c0);
                    }
                    return Err(e);
                },
            }
        }
        j = j + 1;
    }
    let ghost before = cards@;
    cards.push(Card::ReadVar(tmp.clone()));
    proof {
        lemma_cards_view_push(before, Card::ReadVar(tmp));
        assert(Card::ReadVar(tmp)@ == crate::cards::SpecCard::ReadVar(tmp@));
        reveal_strlit("table_literal");
    }
    Ok(Card::CompositeCard(String::from_str("table_literal"), cards))
}

/// The key of a `table_field`: an identifier as a string, or a decoded string;
/// `None` for any other key.
fn table_key_card(field: &SyntaxNode) -> (key: Option<Card>)
    ensures
        key is Some <==> table_key(*field) is Some,
        key matches Some(k) ==> k@ == table_key(*field)->0,
{
    proof {
        lemma_field_index_from_bounds(field.children@, 0, "key"@);
    }
    let ki = match field.field_child_index("key") {
        Some(i) => i,
        None => return None,
    };
    let kn = &field.children[ki];
    if kn.is_kind("identifier") {
        Some(Card::StringLiteral(text(kn)))
    } else if kn.is_kind("string") {
        match decode_string(kn) {
            Some(t) => Some(Card::StringLiteral(t)),
            None => None,
        }
    } else {
        None
    }
}

fn convert_closure_expression(node: &SyntaxNode, ctx: &mut FnCtx) -> (res: Result<Card, Stop>)
    ensures
        card_outcome(res, final(ctx).tmp_counter) == spec_closure(
            *node,
            old(ctx).known(),
            old(ctx).tmp_counter,
        ),
        final(ctx).known_functions == old(ctx).known_functions,
    decreases node, 1int, 0int,
{
    proof {
        lemma_field_index_from_bounds(node.children@, 0, "parameters"@);
        lemma_field_index_from_bounds(node.children@, 0, "body"@);
    }
    let pi = match node.field_child_index("parameters") {
        Some(i) => i,
        None => return Err(Stop::Panics),
    };
    let bi = match node.field_child_index("body") {
        Some(i) => i,
        None => return Err(Stop::Panics),
    };
    let arguments = named_child_texts(&node.children[pi]);
    let body = &node.children[bi];
    let cards = if body.is_kind("block") {
        convert_block(body, ctx)?
    } else if body.is_kind("expression") {
        let card = convert_expression(body, ctx)?;
        let mut v: Vec<Card> = Vec::new();
        v.push(Card::Return(Box::new(card)));
        proof {
            assert(Card::Return(Box::new(card))@ == crate::cards::SpecCard::Return(Box::new(card@)));
            lemma_cards_view_push(Seq::empty(), Card::Return(Box::new(card)));
            assert(Seq::<Card>::empty().push(Card::Return(Box::new(card))) =~= v@);
        }
        v
    } else {
        return Err(Stop::Error(unsupported(body)));
    };
    let function = Function { arguments, cards };
    assert(function@ == crate::cards::SpecFunction {
        arguments: crate::frontend::model::named_texts(node.children@[pi as int]),
        cards: cards_view(cards@),
    });
    assert(Card::Closure(Box::new(function))@ == crate::cards::SpecCard::Closure(Box::new(function@)));
    Ok(Card::Closure(Box::new(function)))
}

fn convert_postfix_base(node: &SyntaxNode, ctx: &mut FnCtx) -> (res: Result<Card, Stop>)
    ensures
        card_outcome(res, final(ctx).tmp_counter) == spec_postfix_base(
            *node,
            old(ctx).known(),
            old(ctx).tmp_counter,
        ),
        final(ctx).known_functions == old(ctx).known_functions,
    decreases node, 2int, 0int,
{
    if node.is_kind("identifier") {
        Ok(Card::ReadVar(text(node)))
    } else if node.is_kind("call_expression") {
        convert_call_expression(node, ctx)
    } else {
        Err(Stop::Error(unsupported(node)))
    }
}

/// The base and the segments of a postfix expression up to (not including)
/// the child at `end`.
fn convert_postfix_segments(node: &SyntaxNode, f: usize, end: usize, ctx: &mut FnCtx) -> (res: Result<Card, Stop>)
    requires
        f < end <= node.children@.len(),
    ensures
        card_outcome(res, final(ctx).tmp_counter) == segments_upto(
            *node,
            f as int,
            end as int,
            old(ctx).known(),
            old(ctx).tmp_counter,
        ),
        final(ctx).known_functions == old(ctx).known_functions,
    decreases node, 0int, 0int,
{
    let ghost known = ctx.known();
    let ghost c0 = ctx.tmp_counter;
    let ghost kf = ctx.known_functions;
    let base = convert_postfix_base(&node.children[f], ctx);
    let mut acc = match base {
        Ok(card) => card,
        Err(e) => {
            proof {
                lemma_segments_stuck(*node, f as int, f + 1, end as int, known, c0);
            }
            return Err(e);
        },
    };
    let mut j: usize = f + 1;
    while j < end
        invariant
            f < j <= end <= node.children@.len(),
            ctx.known_functions == kf,
            kf == old(ctx).known_functions,
            known == ctx.known(),
            known == old(ctx).known(),
            c0 == old(ctx).tmp_counter,
            segments_upto(*node, f as int, j as int, known, c0) == Outcome::Done(
                (acc@, ctx.tmp_counter),
            ),
        decreases end - j,
    {
        let seg = &node.children[j];
        if seg.named {
            if seg.is_kind("identifier") {
                let key = Card::StringLiteral(text(seg));
                assert(key@ == crate::cards::SpecCard::StringLiteral(seg.text@));
                acc = Card::GetProperty { table: Box::new(acc), key: Box::new(key) };
            } else if seg.is_kind("expression") {
                match convert_expression(seg, ctx) {
                    Ok(index) => {
                        acc = Card::Get(Box::new(acc), Box::new(index));
                    },
                    Err(e) => {
                        proof {
                            lemma_segments_stuck(*node, f as int, j + 1, end as int, known, c0);
                        }
                        return Err(e);
                    },
                }
            } else {
                proof {
                    lemma_segments_stuck(*node, f as int, j + 1, end as int, known, c0);
                }
                return Err(Stop::Panics);
            }
        }
        j = j + 1;
    }
    Ok(acc)
}

pub fn convert_postfix_expression(node: &SyntaxNode, ctx: &mut FnCtx) -> (res: Result<Card, Stop>)
    ensures
        card_outcome(res, final(ctx).tmp_counter) == spec_postfix(
            *node,
            old(ctx).known(),
            old(ctx).tmp_counter,
        ),
        final(ctx).known_functions == old(ctx).known_functions,
    decreases node, 1int, 0int,
{
    proof {
        lemma_named_index_from_bounds(node.children@, 0, 0);
    }
    match node.named_child_index(0) {
        Some(f) => convert_postfix_segments(node, f, node.children.len(), ctx),
        None => Err(Stop::Panics),
    }
}

/// The target of a property assignment: everything but the last segment is the
/// table to write to, the last segment is the key.
pub fn convert_postfix_assignment_target(node: &SyntaxNode, ctx: &mut FnCtx) -> (res: Result<
    (Card, Card),
    Stop,
>)
    ensures
        pair_outcome(res, final(ctx).tmp_counter) == spec_postfix_target(
            *node,
            old(ctx).known(),
            old(ctx).tmp_counter,
        ),
        final(ctx).known_functions == old(ctx).known_functions,
    decreases node, 1int, 0int,
{
    let m = node.named_child_count();
    if m < 2 {
        return Err(Stop::Panics);
    }
    proof {
        crate::syntax::lemma_named_count_index(node.children@, 0, 0);
        crate::syntax::lemma_named_count_index(node.children@, 0, m - 1);
        lemma_named_index_from_bounds(node.children@, 0, 0);
        lemma_named_index_from_bounds(node.children@, 0, m - 1);
        lemma_first_before_last(node.children@, m as int);
    }
    let f = match node.named_child_index(0) {
        Some(i) => i,
        None => return Err(Stop::Panics),
    };
    let l = match node.named_child_index(m - 1) {
        Some(i) => i,
        None => return Err(Stop::Panics),
    };
    let table = convert_postfix_segments(node, f, l, ctx)?;
    let last = &node.children[l];
    if last.is_kind("identifier") {
        Ok((table, Card::StringLiteral(text(last))))
    } else if last.is_kind("expression") {
        let key = convert_expression(last, ctx)?;
        Ok((table, key))
    } else {
        Err(Stop::Panics)
    }
}

/// With at least two named nodes, the first one comes before the last one.
proof fn lemma_first_before_last(ch: Seq<SyntaxNode>, m: int)
    requires
        m >= 2,
        m == crate::syntax::named_count_from(ch, 0),
    ensures
        crate::syntax::named_index_from(ch, 0, 0) is Some,
        crate::syntax::named_index_from(ch, 0, m - 1) is Some,
        crate::syntax::named_index_from(ch, 0, 0)->0 < crate::syntax::named_index_from(ch, 0, m - 1)->0,
{
    lemma_named_index_order(ch, 0, 0, m - 1);
}

/// Named nodes are found in increasing order.
proof fn lemma_named_index_order(ch: Seq<SyntaxNode>, j: int, a: int, b: int)
    requires
        0 <= j,
        0 <= a < b,
        b < crate::syntax::named_count_from(ch, j),
    ensures
        crate::syntax::named_index_from(ch, j, a) is Some,
        crate::syntax::named_index_from(ch, j, b) is Some,
        crate::syntax::named_index_from(ch, j, a)->0 < crate::syntax::named_index_from(ch, j, b)->0,
    decreases ch.len() - j,
{
    crate::syntax::lemma_named_count_index(ch, j, a);
    crate::syntax::lemma_named_count_index(ch, j, b);
    if j < ch.len() {
        if ch[j].named {
            if a == 0 {
                crate::syntax::lemma_named_count_index(ch, j + 1, b - 1);
                lemma_named_index_from_bounds(ch, j + 1, b - 1);
            } else {
                lemma_named_index_order(ch, j + 1, a - 1, b - 1);
            }
        } else {
            lemma_named_index_order(ch, j + 1, a, b);
        }
    }
}

/// The name that a callee stands for: `Some(Some(name))` for an identifier or
/// a dotted chain of identifiers, `Some(None)` for a dynamic target, `None` for
/// a node that is not a callee.
fn callee_name(node: &SyntaxNode) -> (r: Option<Option<String>>)
    ensures
        match r {
            None => spec_callee(*node) is None,
            Some(None) => spec_callee(*node) == Some(None::<Seq<char>>),
            Some(Some(name)) => spec_callee(*node) == Some(Some(name@)),
        },
{
    if node.is_kind("identifier") {
        return Some(Some(text(node)));
    }
    if !node.is_kind("postfix_expression") {
        return None;
    }
    proof {
        lemma_named_index_from_bounds(node.children@, 0, 0);
    }
    let f = match node.named_child_index(0) {
        Some(i) => i,
        None => return None,
    };
    let base = &node.children[f];
    if !base.is_kind("identifier") {
        return Some(None);
    }
    let len = node.children.len();
    let mut name = text(base);
    let mut j: usize = f + 1;
    assert(spec_callee(*node) == Some(callee_parts_upto(*node, f as int, len as int)));
    while j < len
        invariant
            f < j <= len,
            len == node.children@.len(),
            spec_callee(*node) == Some(callee_parts_upto(*node, f as int, len as int)),
            callee_parts_upto(*node, f as int, j as int) == Some(name@),
        decreases len - j,
    {
        let seg = &node.children[j];
        if seg.named {
            if !seg.is_kind("identifier") {
                proof {
                    lemma_callee_parts_stuck(*node, f as int, j + 1, len as int);
                }
                return Some(None);
            }
            proof {
                reveal_strlit(".");
            }
            name.append(".");
            name.append(seg.text.as_str());
            assert(name@ =~= callee_parts_upto(*node, f as int, j + 1)->0);
        }
        j = j + 1;
    }
    Some(Some(name))
}

pub fn convert_call_expression(node: &SyntaxNode, ctx: &mut FnCtx) -> (res: Result<Card, Stop>)
    ensures
        card_outcome(res, final(ctx).tmp_counter) == spec_call(
            *node,
            old(ctx).known(),
            old(ctx).tmp_counter,
        ),
        final(ctx).known_functions == old(ctx).known_functions,
    decreases node, 1int, 0int,
{
    proof {
        lemma_field_index_from_bounds(node.children@, 0, "function"@);
    }
    let fi = match node.field_child_index("function") {
        Some(i) => i,
        None => return Err(Stop::Panics),
    };
    let callee = &node.children[fi];
    let name = match callee_name(callee) {
        Some(Some(s)) => s,
        Some(None) => {
            return Err(
                Stop::Error(
                    LowerError::DynamicCallUnsupported {
                        start: callee.start_byte,
                        end: callee.end_byte,
                    },
                ),
            );
        },
        None => return Err(Stop::Panics),
    };
    let ghost known = ctx.known();
    let ghost c0 = ctx.tmp_counter;
    let ghost kf = ctx.known_functions;
    let len = node.children.len();
    let mut args: Vec<Card> = Vec::new();
    let mut j: usize = 0;
    while j < len
        invariant
            fi < len,
            field_index(*node, "function"@) == Some(fi as int),
            *callee == node.children@[fi as int],
            spec_callee(*callee) == Some(Some(name@)),
            len == node.children@.len(),
            j <= len,
            ctx.known_functions == kf,
            kf == old(ctx).known_functions,
            known == ctx.known(),
            known == old(ctx).known(),
            c0 == old(ctx).tmp_counter,
            args_upto(*node, j as int, known, c0) == Outcome::Done(
                (cards_view(args@), ctx.tmp_counter),
            ),
        decreases len - j,
    {
        let child = &node.children[j];
        if child.named && child.is_kind("expression") {
            let ghost before = args@;
            match convert_expression(child, ctx) {
                Ok(card) => {
                    args.push(card);
                    proof {
                        lemma_cards_view_push(before, card);
                    }
                },
                Err(e) => {
                    proof {
                        lemma_args_stuck(*node, j + 1, len as int, known, c0);
                    }
                    return Err(e);
                },
            }
        }
        j = j + 1;
    }
    if ctx.is_known(&name) {
        Ok(Card::CallFunction(name, args))
    } else {
        Ok(Card::CallNative(name, args))
    }
}

} // verus!
