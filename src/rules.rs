//! The rules of the analysis, stated over the mathematical content of
//! expressions and of their result shapes.
use vstd::prelude::*;

use crate::grammar::{BinOp, ExprView, ModifierOp, ParamModel};
use crate::number::{
    in_range, int_of, is_int, rat_abs, rat_add, rat_ceil, rat_div, rat_floor, rat_lt, rat_mul,
    rat_round, rat_sub, trunc_div, trunc_rem,
};

verus! {

/// The mathematical content of a `Type`: numbers as fractions
/// (numerator, denominator), and no error text.
pub enum TypeView {
    Invalid,
    Constant((int, int)),
    Unknown,
    RawPool(int, int),
    LimitablePool(int, int),
    ConstList(Seq<(int, int)>),
    VarList(int),
}

/// What a modifier's parameter analyses to.
pub enum ParamView {
    Absent,
    Value(TypeView),
    Compare(TypeView),
}

/// How the arguments of a call are read.
pub enum ArgsView {
    OneNumber(TypeView),
    OneList(TypeView),
    ListAndNumber(TypeView, TypeView),
}

pub open spec fn is_variable(t: TypeView) -> bool {
    t is Unknown || t is RawPool || t is LimitablePool
}

pub open spec fn is_number(t: TypeView) -> bool {
    t is Constant || is_variable(t)
}

pub open spec fn is_pool(t: TypeView) -> bool {
    t is RawPool || t is LimitablePool
}

pub open spec fn is_list(t: TypeView) -> bool {
    t is ConstList || t is VarList
}

/// What may not stand in a list: an error, or another list.
pub open spec fn is_bad_item(t: TypeView) -> bool {
    t is Invalid || is_list(t)
}

/// Whether an integer fits in `i64`.
pub open spec fn fits(n: int) -> bool {
    i64::MIN <= n <= i64::MAX
}

pub open spec fn list_len(t: TypeView) -> int {
    match t {
        TypeView::ConstList(s) => s.len() as int,
        TypeView::VarList(n) => n,
        _ => 0,
    }
}

/// A constant, or `Invalid` when it does not fit.
pub open spec fn checked(x: (int, int)) -> TypeView {
    if in_range(x) {
        TypeView::Constant(x)
    } else {
        TypeView::Invalid
    }
}

/// `s` repeated `k` times.
pub open spec fn repeat(s: Seq<(int, int)>, k: nat) -> Seq<(int, int)>
    decreases k,
{
    if k == 0 {
        Seq::empty()
    } else {
        repeat(s, (k - 1) as nat) + s
    }
}

/// `count d side`: both constant whole numbers, `count > 0`, `side >= 2`.
pub open spec fn dice_rule(count: TypeView, side: TypeView) -> TypeView {
    match (count, side) {
        (TypeView::Constant(c), TypeView::Constant(s)) => {
            if is_int(c) && is_int(s) && int_of(c) > 0 && int_of(s) >= 2 {
                TypeView::RawPool(int_of(c), int_of(s))
            } else {
                TypeView::Invalid
            }
        },
        _ => TypeView::Invalid,
    }
}

/// Exact arithmetic on two constants.
pub open spec fn const_arith(a: (int, int), op: BinOp, b: (int, int)) -> TypeView {
    match op {
        BinOp::Add => checked(rat_add(a, b)),
        BinOp::Sub => checked(rat_sub(a, b)),
        BinOp::Mul => checked(rat_mul(a, b)),
        BinOp::Div => if b.0 == 0 {
            TypeView::Invalid
        } else {
            checked(rat_div(a, b))
        },
        BinOp::Mod => if b.0 != 0 && is_int(a) && is_int(b) {
            TypeView::Constant((trunc_rem(int_of(a), int_of(b)), 1))
        } else {
            TypeView::Invalid
        },
        BinOp::Idiv => if b.0 != 0 && is_int(a) && is_int(b) {
            TypeView::Constant((trunc_div(int_of(a), int_of(b)), 1))
        } else {
            TypeView::Invalid
        },
    }
}

/// Arithmetic on two numbers: constants fold, anything else is unknown,
/// but a constant divisor must still suit `/`, `%` and `//`.
pub open spec fn number_rule(l: TypeView, op: BinOp, r: TypeView) -> TypeView {
    match (l, r) {
        (TypeView::Constant(a), TypeView::Constant(b)) => const_arith(a, op, b),
        (_, TypeView::Constant(b)) => {
            if (op is Div || op is Mod || op is Idiv) && b.0 == 0 {
                TypeView::Invalid
            } else if (op is Mod || op is Idiv) && !is_int(b) {
                TypeView::Invalid
            } else {
                TypeView::Unknown
            }
        },
        _ => TypeView::Unknown,
    }
}

/// A list times a constant `c`: `c` must be a non-negative whole number.
pub open spec fn list_scale_rule(l: TypeView, op: BinOp, c: (int, int)) -> TypeView {
    if !is_int(c) || c.0 < 0 || !(op is Mul) {
        TypeView::Invalid
    } else {
        match l {
            TypeView::ConstList(s) => if s.len() * int_of(c) <= i64::MAX {
                TypeView::ConstList(repeat(s, int_of(c) as nat))
            } else {
                TypeView::Invalid
            },
            TypeView::VarList(n) => if fits(n * int_of(c)) {
                TypeView::VarList(n * int_of(c))
            } else {
                TypeView::Invalid
            },
            _ => TypeView::Invalid,
        }
    }
}

/// Two lists added: concatenation.
pub open spec fn list_concat_rule(l: TypeView, r: TypeView) -> TypeView {
    match (l, r) {
        (TypeView::ConstList(a), TypeView::ConstList(b)) => TypeView::ConstList(a + b),
        _ => if fits(list_len(l) + list_len(r)) {
            TypeView::VarList(list_len(l) + list_len(r))
        } else {
            TypeView::Invalid
        },
    }
}

pub open spec fn binary_rule(l: TypeView, op: BinOp, r: TypeView) -> TypeView {
    if l is Invalid || r is Invalid {
        TypeView::Invalid
    } else if is_number(l) && is_number(r) {
        number_rule(l, op, r)
    } else if is_list(l) && r is Constant {
        list_scale_rule(l, op, r->Constant_0)
    } else if l is Constant && is_list(r) {
        list_scale_rule(r, op, l->Constant_0)
    } else if is_list(l) && is_list(r) && op is Add {
        list_concat_rule(l, r)
    } else {
        TypeView::Invalid
    }
}

/// The items of a list literal: no error and no list among them; any
/// variable item makes the list variable.
pub open spec fn list_rule(ts: Seq<TypeView>) -> TypeView {
    if exists|i: int| 0 <= i < ts.len() && #[trigger] is_bad_item(ts[i]) {
        TypeView::Invalid
    } else if exists|i: int| 0 <= i < ts.len() && #[trigger] is_variable(ts[i]) {
        if ts.len() <= i64::MAX {
            TypeView::VarList(ts.len() as int)
        } else {
            TypeView::Invalid
        }
    } else {
        TypeView::ConstList(ts.map_values(|t: TypeView| t->Constant_0))
    }
}

pub open spec fn classify_args(ts: Seq<TypeView>) -> Option<ArgsView> {
    if ts.len() == 0 {
        None
    } else if ts.len() == 1 && is_number(ts[0]) {
        Some(ArgsView::OneNumber(ts[0]))
    } else if ts.len() == 1 && is_list(ts[0]) {
        Some(ArgsView::OneList(ts[0]))
    } else if ts.len() == 2 && is_list(ts[0]) && is_number(ts[1]) {
        Some(ArgsView::ListAndNumber(ts[0], ts[1]))
    } else if list_rule(ts) is Invalid {
        None
    } else {
        Some(ArgsView::OneList(list_rule(ts)))
    }
}

/// Whether `x` beats `y` when selecting the largest (or smallest) values.
pub open spec fn better(x: (int, int), y: (int, int), largest: bool) -> bool {
    if largest {
        rat_lt(y, x)
    } else {
        rat_lt(x, y)
    }
}

/// The largest (or smallest) item of a non-empty sequence; the first of
/// equal candidates is kept.
pub open spec fn extreme(s: Seq<(int, int)>, largest: bool) -> (int, int)
    decreases s.len(),
{
    if s.len() <= 1 {
        s[0]
    } else {
        let m = extreme(s.drop_last(), largest);
        if better(s.last(), m, largest) {
            s.last()
        } else {
            m
        }
    }
}

/// Whether the item at `j` ranks before the item at `i`: it is strictly
/// better, or equal and earlier.
pub open spec fn ranks_before(s: Seq<(int, int)>, j: int, i: int, largest: bool) -> bool {
    better(s[j], s[i], largest) || (j < i && !better(s[i], s[j], largest))
}

/// How many of the first `k` items rank before the item at `i`.
pub open spec fn rank_below(s: Seq<(int, int)>, i: int, k: int, largest: bool) -> nat
    decreases k,
{
    if k <= 0 {
        0
    } else {
        rank_below(s, i, k - 1, largest) + if ranks_before(s, k - 1, i, largest) {
            1nat
        } else {
            0nat
        }
    }
}

/// The items among the first `k` whose rank is below `n`, in their order.
pub open spec fn top_n_prefix(s: Seq<(int, int)>, n: nat, largest: bool, k: int) -> Seq<(int, int)>
    decreases k,
{
    if k <= 0 {
        Seq::empty()
    } else {
        let rest = top_n_prefix(s, n, largest, k - 1);
        if rank_below(s, k - 1, s.len() as int, largest) < n {
            rest.push(s[k - 1])
        } else {
            rest
        }
    }
}

/// The `n` largest (or smallest) items of `s`, ties going to the earlier
/// item, kept in the order they stand in `s`.
pub open spec fn top_n(s: Seq<(int, int)>, n: nat, largest: bool) -> Seq<(int, int)> {
    top_n_prefix(s, n, largest, s.len() as int)
}

/// `max` / `min`.
pub open spec fn extreme_rule(a: ArgsView, largest: bool) -> TypeView {
    match a {
        ArgsView::OneNumber(t) => if t is Constant {
            t
        } else {
            TypeView::Unknown
        },
        ArgsView::OneList(TypeView::ConstList(s)) => if s.len() == 0 {
            TypeView::Invalid
        } else {
            TypeView::Constant(extreme(s, largest))
        },
        ArgsView::OneList(_) => TypeView::Unknown,
        ArgsView::ListAndNumber(l, TypeView::Constant(c)) => {
            if !is_int(c) || int_of(c) <= 0 {
                TypeView::Invalid
            } else {
                match l {
                    TypeView::VarList(len) => if len < int_of(c) {
                        TypeView::Invalid
                    } else {
                        TypeView::VarList(int_of(c))
                    },
                    TypeView::ConstList(s) => if int_of(c) > s.len() {
                        TypeView::Invalid
                    } else {
                        TypeView::ConstList(top_n(s, int_of(c) as nat, largest))
                    },
                    _ => TypeView::Invalid,
                }
            }
        },
        ArgsView::ListAndNumber(_, _) => TypeView::Invalid,
    }
}

/// The sum of the items, left to right; `None` when a partial sum does not
/// fit.
pub open spec fn sum_of(s: Seq<(int, int)>) -> Option<(int, int)>
    decreases s.len(),
{
    if s.len() == 0 {
        Some((0, 1))
    } else {
        match sum_of(s.drop_last()) {
            Some(p) => if in_range(rat_add(p, s.last())) {
                Some(rat_add(p, s.last()))
            } else {
                None
            },
            None => None,
        }
    }
}

/// `sum`.
pub open spec fn sum_rule(a: ArgsView) -> TypeView {
    match a {
        ArgsView::OneNumber(t) => if t is Constant {
            t
        } else {
            TypeView::Unknown
        },
        ArgsView::OneList(TypeView::ConstList(s)) => match sum_of(s) {
            Some(x) => TypeView::Constant(x),
            None => TypeView::Invalid,
        },
        ArgsView::OneList(_) => TypeView::Unknown,
        ArgsView::ListAndNumber(_, _) => TypeView::Invalid,
    }
}

/// `floor`, `ceil`, `round` and `abs`: one numeric argument.
pub open spec fn rounding_rule(name: Seq<char>, a: ArgsView) -> TypeView {
    match a {
        ArgsView::OneNumber(TypeView::Constant(c)) => TypeView::Constant(
            if name == "floor"@ {
                rat_floor(c)
            } else if name == "ceil"@ {
                rat_ceil(c)
            } else if name == "round"@ {
                rat_round(c)
            } else {
                rat_abs(c)
            },
        ),
        ArgsView::OneNumber(_) => TypeView::Unknown,
        _ => TypeView::Invalid,
    }
}

/// `rpdice`: one argument, a pool turning into an unknown number, and an
/// optional constant whole repeat count above 1.
pub open spec fn rpdice_rule(ts: Seq<TypeView>) -> TypeView {
    let first = if is_pool(ts[0]) {
        TypeView::Unknown
    } else {
        ts[0]
    };
    if ts.len() == 1 {
        first
    } else if ts.len() == 2 && ts[1] is Constant {
        let c = ts[1]->Constant_0;
        if !is_int(c) || int_of(c) <= 1 {
            TypeView::Invalid
        } else {
            first
        }
    } else {
        TypeView::Invalid
    }
}

pub open spec fn is_rounding_name(name: Seq<char>) -> bool {
    name == "floor"@ || name == "ceil"@ || name == "round"@ || name == "abs"@
}

pub open spec fn call_rule(name: Seq<char>, ts: Seq<TypeView>) -> TypeView {
    match classify_args(ts) {
        None => TypeView::Invalid,
        Some(a) => if name == "max"@ || name == "min"@ {
            extreme_rule(a, name == "max"@)
        } else if name == "sum"@ {
            sum_rule(a)
        } else if is_rounding_name(name) {
            rounding_rule(name, a)
        } else if name == "rpdice"@ {
            rpdice_rule(ts)
        } else {
            TypeView::Invalid
        },
    }
}

/// The count of keep / drop / limit: a constant non-negative whole number.
pub open spec fn count_param(p: ParamView) -> Option<int> {
    match p {
        ParamView::Value(TypeView::Constant(c)) => if is_int(c) && int_of(c) >= 0 {
            Some(int_of(c))
        } else {
            None
        },
        _ => None,
    }
}

/// An optional comparison whose target is a constant.
pub open spec fn compare_ok(p: ParamView) -> bool {
    match p {
        ParamView::Absent => true,
        ParamView::Compare(t) => t is Constant,
        ParamView::Value(_) => false,
    }
}

pub open spec fn pool_count(t: TypeView) -> int {
    match t {
        TypeView::RawPool(c, _) => c,
        TypeView::LimitablePool(c, _) => c,
        _ => 0,
    }
}

pub open spec fn pool_side(t: TypeView) -> int {
    match t {
        TypeView::RawPool(_, s) => s,
        TypeView::LimitablePool(_, s) => s,
        _ => 0,
    }
}

pub open spec fn modifier_rule(l: TypeView, op: ModifierOp, p: ParamView) -> TypeView {
    if !is_pool(l) {
        TypeView::Invalid
    } else {
        let mc = pool_count(l);
        let side = pool_side(l);
        match op {
            ModifierOp::KeepHigh | ModifierOp::KeepLow | ModifierOp::DropHigh
            | ModifierOp::DropLow => match count_param(p) {
                None => TypeView::Invalid,
                Some(c) => {
                    let remain = if op is KeepHigh || op is KeepLow {
                        c
                    } else {
                        mc - c
                    };
                    if remain <= 0 || remain > mc {
                        TypeView::Invalid
                    } else {
                        TypeView::RawPool(remain, side)
                    }
                },
            },
            ModifierOp::Reroll | ModifierOp::RerollOnce => match p {
                ParamView::Compare(TypeView::Constant(_)) => TypeView::RawPool(mc, side),
                _ => TypeView::Invalid,
            },
            ModifierOp::Explode => if compare_ok(p) {
                TypeView::RawPool(mc, side)
            } else {
                TypeView::Invalid
            },
            ModifierOp::ExplodeCompound => if compare_ok(p) {
                TypeView::LimitablePool(mc, side)
            } else {
                TypeView::Invalid
            },
            ModifierOp::Limit => match count_param(p) {
                Some(c) => if c > 0 && l is LimitablePool {
                    TypeView::RawPool(mc, side)
                } else {
                    TypeView::Invalid
                },
                None => TypeView::Invalid,
            },
        }
    }
}

/// A success check counts successes of a pool against a constant target.
pub open spec fn success_rule(l: TypeView, target: TypeView) -> TypeView {
    if is_pool(l) && target is Constant {
        TypeView::Unknown
    } else {
        TypeView::Invalid
    }
}

/// The shape of the result of `e`.
pub open spec fn typecheck_spec(e: ExprView) -> TypeView
    decreases e,
{
    match e {
        ExprView::Number(x) => TypeView::Constant(x),
        ExprView::Dice(count, side) => dice_rule(typecheck_spec(*count), typecheck_spec(*side)),
        ExprView::Binary(lhs, op, rhs) => binary_rule(
            typecheck_spec(*lhs),
            op,
            typecheck_spec(*rhs),
        ),
        ExprView::Call(name, args) => call_rule(name, types_of(args)),
        ExprView::List(items) => list_rule(types_of(items)),
        ExprView::Modifier(lhs, op, param) => modifier_rule(
            typecheck_spec(*lhs),
            op,
            match param {
                ParamModel::Absent => ParamView::Absent,
                ParamModel::Value(v) => ParamView::Value(typecheck_spec(*v)),
                ParamModel::Compare(_, v) => ParamView::Compare(typecheck_spec(*v)),
            },
        ),
        ExprView::SuccessCheck(lhs, _, target) => success_rule(
            typecheck_spec(*lhs),
            typecheck_spec(*target),
        ),
    }
}

/// The shapes of a sequence of expressions.
pub open spec fn types_of(s: Seq<ExprView>) -> Seq<TypeView>
    decreases s,
{
    if s.len() == 0 {
        Seq::empty()
    } else {
        types_of(s.drop_last()).push(typecheck_spec(s.last()))
    }
}

pub proof fn lemma_types_of(s: Seq<ExprView>)
    ensures
        types_of(s).len() == s.len(),
        forall|j: int| 0 <= j < s.len() ==> #[trigger] types_of(s)[j] == typecheck_spec(s[j]),
    decreases s.len(),
{
    if s.len() > 0 {
        lemma_types_of(s.drop_last());
    }
}

} // verus!
