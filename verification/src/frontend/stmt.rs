//! Lowering of statements and blocks.
use vstd::prelude::*;
use crate::cards::{cards_view, lemma_cards_view_push, Card};
use crate::frontend::error::Stop;
use crate::frontend::expr::{convert_expression, convert_postfix_assignment_target};
use crate::frontend::model::{
    card_outcome, cards_outcome, field_text, lemma_statements_stuck, spec_block,
    spec_block_single, spec_statement, statements_upto, Outcome,
};
use crate::frontend::{text, unsupported, FnCtx};
use crate::syntax::{lemma_field_index_from_bounds, lemma_named_index_from_bounds, SyntaxNode};

verus! {

/// A block: one card per statement, in order.
pub fn convert_block(node: &SyntaxNode, ctx: &mut FnCtx) -> (res: Result<Vec<Card>, Stop>)
    ensures
        cards_outcome(res, final(ctx).tmp_counter) == spec_block(
            *node,
            old(ctx).known(),
            old(ctx).tmp_counter,
        ),
        final(ctx).known_functions == old(ctx).known_functions,
    decreases node, 1int, 0int,
{
    let ghost known = ctx.known();
    let ghost c0 = ctx.tmp_counter;
    let ghost kf = ctx.known_functions;
    let len = node.children.len();
    let mut cards: Vec<Card> = Vec::new();
    let mut j: usize = 0;
    while j < len
        invariant
            len == node.children@.len(),
            j <= len,
            ctx.known_functions == kf,
            kf == old(ctx).known_functions,
            known == ctx.known(),
            known == old(ctx).known(),
            c0 == old(ctx).tmp_counter,
            statements_upto(*node, j as int, known, c0) == Outcome::Done(
                (cards_view(cards@), ctx.tmp_counter),
            ),
        decreases len - j,
    {
        let child = &node.children[j];
        if child.named {
            let ghost before = cards@;
            match convert_statement(child, ctx) {
                Ok(card) => {
                    cards.push(card);
                    proof {
                        lemma_cards_view_push(before, card);
                    }
                },
                Err(e) => {
                    proof {
                        lemma_statements_stuck(*node, j + 1, len as int, known, c0);
                    }
                    return Err(e);
                },
            }
        }
        j = j + 1;
    }
    Ok(cards)
}

/// A loop body, which holds a single card: a block of one statement is that
/// statement's card, any other block is grouped in a composite card.
pub fn convert_block_as_single_card(node: &SyntaxNode, ctx: &mut FnCtx) -> (res: Result<Card, Stop>)
    ensures
        card_outcome(res, final(ctx).tmp_counter) == spec_block_single(
            *node,
            old(ctx).known(),
            old(ctx).tmp_counter,
        ),
        final(ctx).known_functions == old(ctx).known_functions,
    decreases node, 2int, 0int,
{
    let mut cards = convert_block(node, ctx)?;
    proof {
        crate::cards::lemma_cards_view(cards@);
    }
    if cards.len() == 1 {
        match cards.pop() {
            Some(card) => Ok(card),
            None => Err(Stop::Panics),
        }
    } else {
        proof {
            reveal_strlit("block");
        }
        Ok(Card::CompositeCard(String::from_str("block"), cards))
    }
}

/// The text of the child under field `name`, if there is one.
fn field_text_of(node: &SyntaxNode, name: &str) -> (r: Option<String>)
    ensures
        r matches Some(s) ==> field_text(*node, name@) == Some(s@),
        r is None ==> field_text(*node, name@) is None,
{
    proof {
        lemma_field_index_from_bounds(node.children@, 0, name@);
    }
    match node.field_child_index(name) {
        Some(i) => Some(text(&node.children[i])),
        None => None,
    }
}

fn convert_statement(node: &SyntaxNode, ctx: &mut FnCtx) -> (res: Result<Card, Stop>)
    ensures
        card_outcome(res, final(ctx).tmp_counter) == spec_statement(
            *node,
            old(ctx).known(),
            old(ctx).tmp_counter,
        ),
        final(ctx).known_functions == old(ctx).known_functions,
    decreases node, 0int, 0int,
{
    proof {
        lemma_named_index_from_bounds(node.children@, 0, 0);
        lemma_field_index_from_bounds(node.children@, 0, "value"@);
        lemma_field_index_from_bounds(node.children@, 0, "target"@);
        lemma_field_index_from_bounds(node.children@, 0, "condition"@);
        lemma_field_index_from_bounds(node.children@, 0, "body"@);
        lemma_field_index_from_bounds(node.children@, 0, "count"@);
        lemma_field_index_from_bounds(node.children@, 0, "bindings"@);
        lemma_field_index_from_bounds(node.children@, 0, "iterable"@);
    }
    if node.is_kind("return_statement") {
        let j = match node.named_child_index(0) {
            Some(i) => i,
            None => return Err(Stop::Panics),
        };
        let card = convert_expression(&node.children[j], ctx)?;
        Ok(Card::Return(Box::new(card)))
    } else if node.is_kind("global_var_statement") || node.is_kind("local_var_statement") {
        let name = match field_text_of(node, "name") {
            Some(s) => s,
            None => return Err(Stop::Panics),
        };
        let vi = match node.field_child_index("value") {
            Some(i) => i,
            None => return Err(Stop::Panics),
        };
        let value = convert_expression(&node.children[vi], ctx)?;
        if node.is_kind("global_var_statement") {
            Ok(Card::SetGlobalVar(name, Box::new(value)))
        } else {
            Ok(Card::SetVar(name, Box::new(value)))
        }
    } else if node.is_kind("set_property_statement") {
        let ti = match node.field_child_index("target") {
            Some(i) => i,
            None => return Err(Stop::Panics),
        };
        let vi = match node.field_child_index("value") {
            Some(i) => i,
            None => return Err(Stop::Panics),
        };
        let value = convert_expression(&node.children[vi], ctx)?;
        let (table, key) = convert_postfix_assignment_target(&node.children[ti], ctx)?;
        Ok(Card::SetProperty { value: Box::new(value), table: Box::new(table), key: Box::new(key) })
    } else if node.is_kind("expression_statement") {
        // What a discarded expression leaves on the stack is cleared when the
        // function returns, so no card is needed to drop it.
        match node.named_child_index(0) {
            Some(j) => convert_expression(&node.children[j], ctx),
            None => Err(Stop::Panics),
        }
    } else if node.is_kind("while_statement") {
        let ci = match node.field_child_index("condition") {
            Some(i) => i,
            None => return Err(Stop::Panics),
        };
        let cond = convert_expression(&node.children[ci], ctx)?;
        let bi = match node.field_child_index("body") {
            Some(i) => i,
            None => return Err(Stop::Panics),
        };
        let body = convert_block_as_single_card(&node.children[bi], ctx)?;
        Ok(Card::While(Box::new(cond), Box::new(body)))
    } else if node.is_kind("repeat_statement") {
        let ci = match node.field_child_index("count") {
            Some(i) => i,
            None => return Err(Stop::Panics),
        };
        let count = convert_expression(&node.children[ci], ctx)?;
        let var = field_text_of(node, "var");
        let bi = match node.field_child_index("body") {
            Some(i) => i,
            None => return Err(Stop::Panics),
        };
        let body = convert_block_as_single_card(&node.children[bi], ctx)?;
        Ok(Card::Repeat { count: Box::new(count), var, body: Box::new(body) })
    } else if node.is_kind("foreach_statement") {
        let bi = match node.field_child_index("bindings") {
            Some(i) => i,
            None => return Err(Stop::Panics),
        };
        let bindings = &node.children[bi];
        let i = field_text_of(bindings, "i");
        let k = field_text_of(bindings, "k");
        let v = match field_text_of(bindings, "v") {
            Some(s) => s,
            None => return Err(Stop::Panics),
        };
        let ii = match node.field_child_index("iterable") {
            Some(i) => i,
            None => return Err(Stop::Panics),
        };
        let iterable = convert_expression(&node.children[ii], ctx)?;
        let di = match node.field_child_index("body") {
            Some(i) => i,
            None => return Err(Stop::Panics),
        };
        let body = convert_block_as_single_card(&node.children[di], ctx)?;
        Ok(
            Card::ForEach {
                i,
                k,
                v: Some(v),
                iterable: Box::new(iterable),
                body: Box::new(body),
            },
        )
    } else {
        Err(Stop::Error(unsupported(node)))
    }
}

} // verus!
