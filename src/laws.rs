//! Properties of the analysis as a whole.
use vstd::prelude::*;

use crate::grammar::{expr_view, parse_spec, Expr, ExprView, ParamModel};
use crate::rules::{
    classify_args, is_bad_item, is_pool, lemma_types_of, list_rule, pool_count, pool_side,
    rpdice_rule, typecheck_spec, types_of,
};
use crate::typecheck::Type;

verus! {

/// The `i`-th direct subexpression of `e`: operands, arguments, list items,
/// a modifier's parameter, a comparison's target.
pub open spec fn child(e: ExprView, i: int) -> Option<ExprView> {
    match e {
        ExprView::Number(_) => None,
        ExprView::Dice(count, side) => if i == 0 {
            Some(*count)
        } else if i == 1 {
            Some(*side)
        } else {
            None
        },
        ExprView::Binary(lhs, _, rhs) => if i == 0 {
            Some(*lhs)
        } else if i == 1 {
            Some(*rhs)
        } else {
            None
        },
        ExprView::Call(_, args) => if 0 <= i < args.len() {
            Some(args[i])
        } else {
            None
        },
        ExprView::List(items) => if 0 <= i < items.len() {
            Some(items[i])
        } else {
            None
        },
        ExprView::Modifier(lhs, _, param) => if i == 0 {
            Some(*lhs)
        } else if i == 1 {
            match param {
                ParamModel::Absent => None,
                ParamModel::Value(v) => Some(*v),
                ParamModel::Compare(_, v) => Some(*v),
            }
        } else {
            None
        },
        ExprView::SuccessCheck(lhs, _, target) => if i == 0 {
            Some(*lhs)
        } else if i == 1 {
            Some(*target)
        } else {
            None
        },
    }
}

/// The subexpression reached from `e` by following the child indices of
/// `path`.
pub open spec fn subexpr_at(e: ExprView, path: Seq<int>) -> Option<ExprView>
    decreases path.len(),
{
    if path.len() == 0 {
        Some(e)
    } else {
        match child(e, path[0]) {
            Some(c) => subexpr_at(c, path.drop_first()),
            None => None,
        }
    }
}

/// An invalid direct subexpression makes the expression invalid.
pub proof fn lemma_invalid_child(e: ExprView, i: int)
    requires
        child(e, i) matches Some(c) && typecheck_spec(c) is Invalid,
    ensures
        typecheck_spec(e) is Invalid,
{
    match e {
        ExprView::Call(name, args) => {
            lemma_types_of(args);
            let ts = types_of(args);
            assert(is_bad_item(ts[i]));
            assert(list_rule(ts) is Invalid);
        },
        ExprView::List(items) => {
            lemma_types_of(items);
            assert(is_bad_item(types_of(items)[i]));
        },
        _ => {},
    }
}

/// Errors propagate: when any subexpression of `e` is invalid, so is `e`.
pub proof fn lemma_invalid_propagates(e: ExprView, path: Seq<int>)
    requires
        subexpr_at(e, path) matches Some(c) && typecheck_spec(c) is Invalid,
    ensures
        typecheck_spec(e) is Invalid,
    decreases path.len(),
{
    if path.len() > 0 {
        let c = child(e, path[0])->0;
        lemma_invalid_propagates(c, path.drop_first());
        lemma_invalid_child(e, path[0]);
    }
}

/// The analysis has no hidden state: two parses of the same text analyse to
/// the same shape, and so do two analyses of one tree.
pub proof fn lemma_analysis_repeatable(text: Seq<u8>, e1: Expr, e2: Expr, r1: Type, r2: Type)
    requires
        parse_spec(text) == Some(expr_view(e1)),
        parse_spec(text) == Some(expr_view(e2)),
        r1@ == typecheck_spec(expr_view(e1)),
        r2@ == typecheck_spec(expr_view(e2)),
    ensures
        r1@ == r2@,
{
}

/// Every dice pool that the analysis yields holds at least one die, of at
/// least two sides; keep and drop never empty a pool.
pub proof fn lemma_pools_hold_dice(e: ExprView)
    ensures
        is_pool(typecheck_spec(e)) ==> pool_count(typecheck_spec(e)) >= 1 && pool_side(
            typecheck_spec(e),
        ) >= 2,
    decreases e,
{
    match e {
        ExprView::Modifier(lhs, _, _) => lemma_pools_hold_dice(*lhs),
        ExprView::Call(_, args) => {
            let ts = types_of(args);
            if classify_args(ts) is Some && ts.len() > 0 {
                assert(!is_pool(rpdice_rule(ts)));
            }
        },
        _ => {},
    }
}

} // verus!
