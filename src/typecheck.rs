//! Static analysis of dice expressions: the shape of each result, with
//! constant folding, computed without rolling any dice.
use vstd::prelude::*;

use crate::grammar::{
    expr_view, expr_views, lemma_expr_views, name_is, BinOp, Expr, ModifierOp, ModifierParam,
};
use crate::number::{int_of, is_int, Rational};
use crate::rules::{
    better, binary_rule, call_rule, classify_args, compare_ok, const_arith, count_param, dice_rule,
    extreme, extreme_rule, is_bad_item, is_variable, lemma_types_of, list_concat_rule, list_rule,
    list_scale_rule, modifier_rule, number_rule, rank_below, repeat, rounding_rule, rpdice_rule,
    success_rule, sum_of, sum_rule, top_n, top_n_prefix, typecheck_spec, types_of, ArgsView,
    ParamView, TypeView,
};
use vstd::string::StringExecFns;

verus! {

broadcast use vstd::std_specs::vec::group_vec_axioms, vstd::seq::group_seq_axioms;

/// A pool of dice: at least `min_count` dice with `side` sides each.
#[derive(Clone, Copy, Debug, PartialEq, Eq, Structural)]
pub struct DiceItem {
    pub min_count: i64,
    pub side: i64,
}

/// A pool is `LimitableDicePool` right after a compound explode (`!!`) and
/// until a limit (`l`) consumes it; every other pool is raw.
#[derive(Clone, Copy, Debug, PartialEq, Eq, Structural)]
pub enum DicePoolType {
    RawDicePool(DiceItem),
    LimitableDicePool(DiceItem),
}

/// A number that is not known before rolling.
#[derive(Clone, Copy, Debug, PartialEq, Eq, Structural)]
pub enum VariableNumber {
    Unknown,
    DicePool(DicePoolType),
}

#[derive(Clone, Copy, Debug, PartialEq)]
pub enum NumberType {
    Constant(Rational),
    Variable(VariableNumber),
}

#[derive(Clone, Debug, PartialEq)]
pub enum ListType {
    ConstantList(Vec<Rational>),
    /// A list whose length is known but not its values.
    VariableList(i64),
}

/// The shape of the result of an expression.
#[derive(Clone, Debug, PartialEq)]
pub enum Type {
    /// The expression is ill-formed; the message says why.
    Invalid(String),
    Number(NumberType),
    List(ListType),
}

impl View for Type {
    type V = TypeView;

    open spec fn view(&self) -> TypeView {
        match self {
            Type::Invalid(_) => TypeView::Invalid,
            Type::Number(NumberType::Constant(c)) => TypeView::Constant(c@),
            Type::Number(NumberType::Variable(VariableNumber::Unknown)) => TypeView::Unknown,
            Type::Number(
                NumberType::Variable(VariableNumber::DicePool(DicePoolType::RawDicePool(d))),
            ) => TypeView::RawPool(d.min_count as int, d.side as int),
            Type::Number(
                NumberType::Variable(VariableNumber::DicePool(DicePoolType::LimitableDicePool(d))),
            ) => TypeView::LimitablePool(d.min_count as int, d.side as int),
            Type::List(ListType::ConstantList(v)) => TypeView::ConstList(v@.map_values(|x: Rational| x@)),
            Type::List(ListType::VariableList(n)) => TypeView::VarList(n as int),
        }
    }
}

/// The fractions held by a sequence of rationals.
pub open spec fn values(v: Seq<Rational>) -> Seq<(int, int)> {
    v.map_values(|x: Rational| x@)
}

/// The views of a sequence of types.
pub open spec fn views(ts: Seq<Type>) -> Seq<TypeView> {
    ts.map_values(|t: Type| t@)
}

proof fn lemma_repeat_empty(k: nat)
    ensures
        repeat(Seq::<(int, int)>::empty(), k) == Seq::<(int, int)>::empty(),
    decreases k,
{
    if k > 0 {
        lemma_repeat_empty((k - 1) as nat);
        assert(repeat(Seq::<(int, int)>::empty(), k) =~= Seq::<(int, int)>::empty());
    }
}

impl Type {
    pub fn constant(val: Rational) -> (r: Type)
        ensures
            r@ == TypeView::Constant(val@),
    {
        Type::Number(NumberType::Constant(val))
    }

    pub fn unknown_var() -> (r: Type)
        ensures
            r@ == TypeView::Unknown,
    {
        Type::Number(NumberType::Variable(VariableNumber::Unknown))
    }

    pub fn raw_dice_pool(item: DiceItem) -> (r: Type)
        ensures
            r@ == TypeView::RawPool(item.min_count as int, item.side as int),
    {
        Type::Number(NumberType::Variable(VariableNumber::DicePool(DicePoolType::RawDicePool(item))))
    }

    pub fn limitable_dice_pool(item: DiceItem) -> (r: Type)
        ensures
            r@ == TypeView::LimitablePool(item.min_count as int, item.side as int),
    {
        Type::Number(
            NumberType::Variable(VariableNumber::DicePool(DicePoolType::LimitableDicePool(item))),
        )
    }

    pub fn const_list(list: Vec<Rational>) -> (r: Type)
        ensures
            r@ == TypeView::ConstList(values(list@)),
    {
        Type::List(ListType::ConstantList(list))
    }

    pub fn var_list(len: i64) -> (r: Type)
        ensures
            r@ == TypeView::VarList(len as int),
    {
        Type::List(ListType::VariableList(len))
    }
}

/// Whether a number is a whole number.
pub fn is_integer(num: &Rational) -> (r: bool)
    ensures
        r == is_int(num@),
{
    num.is_integer()
}

fn invalid(msg: &str) -> (r: Type)
    ensures
        r@ is Invalid,
{
    Type::Invalid(String::from_str(msg))
}

fn copy_values(v: &Vec<Rational>) -> (r: Vec<Rational>)
    ensures
        r@ == v@,
{
    let mut out: Vec<Rational> = Vec::new();
    let mut i: usize = 0;
    while i < v.len()
        invariant
            i <= v.len(),
            out@ == v@.take(i as int),
        decreases v.len() - i,
    {
        out.push(v[i]);
        i += 1;
        assert(out@ =~= v@.take(i as int));
    }
    assert(out@ =~= v@);
    out
}

fn copy_type(t: &Type) -> (r: Type)
    ensures
        r@ == t@,
{
    match t {
        Type::Invalid(s) => Type::Invalid(s.clone()),
        Type::Number(n) => Type::Number(*n),
        Type::List(ListType::ConstantList(v)) => Type::List(ListType::ConstantList(copy_values(v))),
        Type::List(ListType::VariableList(n)) => Type::List(ListType::VariableList(*n)),
    }
}

fn type_of_dice(count: Type, side: Type) -> (r: Type)
    ensures
        r@ == dice_rule(count@, side@),
{
    match (count, side) {
        (Type::Invalid(s), _) => Type::Invalid(s),
        (_, Type::Invalid(s)) => Type::Invalid(s),
        (Type::Number(NumberType::Constant(c)), Type::Number(NumberType::Constant(s))) => {
            if is_integer(&c) && is_integer(&s) {
                let ci = c.to_int();
                let si = s.to_int();
                if ci > 0 && si >= 2 {
                    Type::raw_dice_pool(DiceItem { min_count: ci, side: si })
                } else {
                    invalid("Dice count must be positive and dice side at least 2.")
                }
            } else {
                invalid("Dice count and side must be integers.")
            }
        },
        (Type::Number(_), Type::Number(_)) => invalid(
            "Dice count and side must be constant numbers.",
        ),
        _ => invalid("Dice count and side must be numbers."),
    }
}

fn from_checked(x: Option<Rational>) -> (r: Type)
    ensures
        x matches Some(v) ==> r@ == TypeView::Constant(v@),
        x is None ==> r@ is Invalid,
{
    match x {
        Some(v) => Type::constant(v),
        None => invalid("Number out of range."),
    }
}

fn fold_constants(a: Rational, op: BinOp, b: Rational) -> (r: Type)
    ensures
        r@ == const_arith(a@, op, b@),
{
    match op {
        BinOp::Add => from_checked(a.add(&b)),
        BinOp::Sub => from_checked(a.sub(&b)),
        BinOp::Mul => from_checked(a.mul(&b)),
        BinOp::Div => {
            if b.is_zero() {
                invalid("Division by zero.")
            } else {
                from_checked(a.div(&b))
            }
        },
        BinOp::Mod => {
            if b.is_zero() {
                invalid("Modulo by zero.")
            } else if is_integer(&a) && is_integer(&b) {
                Type::constant(a.trunc_rem(&b))
            } else {
                invalid("Modulo operator requires integer operands.")
            }
        },
        BinOp::Idiv => {
            if b.is_zero() {
                invalid("Integer division by zero.")
            } else if is_integer(&a) && is_integer(&b) {
                Type::constant(a.trunc_div(&b))
            } else {
                invalid("Integer division operator requires integer operands.")
            }
        },
    }
}

fn number_op(l: NumberType, op: BinOp, r: NumberType) -> (t: Type)
    ensures
        t@ == number_rule(Type::Number(l)@, op, Type::Number(r)@),
{
    match (l, r) {
        (NumberType::Constant(a), NumberType::Constant(b)) => fold_constants(a, op, b),
        (_, NumberType::Constant(b)) => {
            let divides = matches!(op, BinOp::Div) || matches!(op, BinOp::Mod) || matches!(
                op,
                BinOp::Idiv
            );
            let whole = matches!(op, BinOp::Mod) || matches!(op, BinOp::Idiv);
            if divides && b.is_zero() {
                invalid("Division or modulo by zero.")
            } else if whole && !is_integer(&b) {
                invalid("Modulo or integer division operator requires integer operands.")
            } else {
                Type::unknown_var()
            }
        },
        _ => Type::unknown_var(),
    }
}

fn repeat_values(v: &Vec<Rational>, k: i64) -> (r: Vec<Rational>)
    requires
        k >= 0,
        v@.len() > 0,
        v@.len() * k <= i64::MAX,
    ensures
        values(r@) == repeat(values(v@), k as nat),
{
    let mut out: Vec<Rational> = Vec::new();
    let mut i: i64 = 0;
    assert(values(out@) =~= repeat(values(v@), 0));
    while i < k
        invariant
            0 <= i <= k,
            v@.len() > 0,
            v@.len() * k <= i64::MAX,
            values(out@) == repeat(values(v@), i as nat),
        decreases k - i,
    {
        let ghost before = out@;
        let mut j: usize = 0;
        while j < v.len()
            invariant
                j <= v.len(),
                out@ == before + v@.take(j as int),
            decreases v.len() - j,
        {
            out.push(v[j]);
            j += 1;
            assert(out@ =~= before + v@.take(j as int));
        }
        assert(out@ =~= before + v@);
        assert(values(out@) =~= values(before) + values(v@));
        i += 1;
    }
    out
}

fn list_scale(l: ListType, op: BinOp, c: Rational) -> (r: Type)
    ensures
        r@ == list_scale_rule(Type::List(l)@, op, c@),
{
    if !is_integer(&c) || c.numer() < 0 {
        return invalid("List operations require non-negative integer constants.");
    }
    if !matches!(op, BinOp::Mul) {
        return invalid("Only multiplication is allowed between list and constant.");
    }
    let k = c.to_int();
    assert(k <= i64::MAX);
    match l {
        ListType::ConstantList(v) => {
            if v.len() == 0 || k == 0 {
                proof {
                    lemma_repeat_empty(k as nat);
                    if k == 0 {
                        assert(repeat(values(v@), 0) =~= Seq::<(int, int)>::empty());
                    } else {
                        assert(values(v@) =~= Seq::<(int, int)>::empty());
                    }
                    assert(values(v@).len() == v@.len());
                    assert(values(v@).len() * int_of(c@) == 0) by (nonlinear_arith)
                        requires values(v@).len() == 0 || int_of(c@) == 0;
                }
                let empty: Vec<Rational> = Vec::new();
                assert(values(empty@) =~= Seq::<(int, int)>::empty());
                Type::const_list(empty)
            } else if {
                assert((v.len() as int) * (k as int) <= 0x1_0000_0000_0000_0000 * 0x8000_0000_0000_0000) by (nonlinear_arith)
                    requires v.len() <= usize::MAX, usize::MAX < 0x1_0000_0000_0000_0000, 0 <= k <= i64::MAX;
                (v.len() as u128) * (k as u128) > i64::MAX as u128
            } {
                invalid("List length out of range.")
            } else {
                Type::const_list(repeat_values(&v, k))
            }
        },
        ListType::VariableList(n) => {
            assert(-0x8000_0000_0000_0000 * 0x8000_0000_0000_0000 <= (n as int) * (k as int) <= 0x8000_0000_0000_0000 * 0x8000_0000_0000_0000) by (nonlinear_arith)
                requires i64::MIN <= n <= i64::MAX, 0 <= k <= i64::MAX;
            let p = (n as i128) * (k as i128);
            if p < i64::MIN as i128 || p > i64::MAX as i128 {
                invalid("List length out of range.")
            } else {
                Type::var_list(p as i64)
            }
        },
    }
}

fn list_concat(l: ListType, r: ListType) -> (t: Type)
    ensures
        t@ == list_concat_rule(Type::List(l)@, Type::List(r)@),
{
    let n: i128 = match (&l, &r) {
        (ListType::ConstantList(a), ListType::ConstantList(b)) => 0,
        (ListType::ConstantList(a), ListType::VariableList(m)) => a.len() as i128 + *m as i128,
        (ListType::VariableList(m), ListType::ConstantList(b)) => *m as i128 + b.len() as i128,
        (ListType::VariableList(m), ListType::VariableList(k)) => *m as i128 + *k as i128,
    };
    match (l, r) {
        (ListType::ConstantList(a), ListType::ConstantList(b)) => {
            let ghost va = a@;
            let ghost vb = b@;
            let mut a = a;
            let mut b = b;
            a.append(&mut b);
            assert(values(a@) =~= values(va) + values(vb));
            Type::const_list(a)
        },
        _ => {
            if n < i64::MIN as i128 || n > i64::MAX as i128 {
                invalid("List length out of range.")
            } else {
                Type::var_list(n as i64)
            }
        },
    }
}

fn type_of_binary_op(lhs: Type, op: BinOp, rhs: Type) -> (r: Type)
    ensures
        r@ == binary_rule(lhs@, op, rhs@),
{
    match (lhs, rhs) {
        (Type::Invalid(s), _) => Type::Invalid(s),
        (_, Type::Invalid(s)) => Type::Invalid(s),
        (Type::Number(l), Type::Number(r)) => number_op(l, op, r),
        (Type::List(l), Type::Number(NumberType::Constant(c))) => list_scale(l, op, c),
        (Type::Number(NumberType::Constant(c)), Type::List(l)) => list_scale(l, op, c),
        (Type::List(l), Type::List(r)) => {
            if matches!(op, BinOp::Add) {
                list_concat(l, r)
            } else {
                invalid("Only addition is allowed between lists.")
            }
        },
        _ => invalid("Cannot perform operations between list and variable number."),
    }
}

fn type_of_list(ts: &Vec<Type>) -> (r: Type)
    ensures
        r@ == list_rule(views(ts@)),
{
    let ghost tv = views(ts@);
    let mut any_variable = false;
    let mut consts: Vec<Rational> = Vec::new();
    let mut i: usize = 0;
    while i < ts.len()
        invariant
            i <= ts.len(),
            tv == views(ts@),
            forall|j: int| 0 <= j < i ==> !#[trigger] is_bad_item(tv[j]),
            any_variable == exists|j: int| 0 <= j < i && #[trigger] is_variable(tv[j]),
            !any_variable ==> values(consts@) == tv.take(i as int).map_values(
                |t: TypeView| t->Constant_0,
            ),
        decreases ts.len() - i,
    {
        match &ts[i] {
            Type::Invalid(s) => {
                assert(is_bad_item(tv[i as int]));
                return Type::Invalid(s.clone());
            },
            Type::List(_) => {
                assert(is_bad_item(tv[i as int]));
                return invalid("Nested lists are not allowed.");
            },
            Type::Number(NumberType::Variable(_)) => {
                assert(is_variable(tv[i as int]));
                any_variable = true;
            },
            Type::Number(NumberType::Constant(c)) => {
                assert(tv[i as int] == TypeView::Constant(c@));
                assert(!is_bad_item(tv[i as int]) && !is_variable(tv[i as int]));
                if !any_variable {
                    let ghost prev = consts@;
                    consts.push(*c);
                    assert(values(consts@) =~= values(prev).push(c@));
                    assert(tv.take(i + 1).map_values(|t: TypeView| t->Constant_0) =~= tv.take(
                        i as int,
                    ).map_values(|t: TypeView| t->Constant_0).push(c@));
                    assert(values(consts@) =~= tv.take(i + 1).map_values(
                        |t: TypeView| t->Constant_0,
                    ));
                }
            },
        }
        i += 1;
    }
    assert(tv.take(i as int) =~= tv);
    if any_variable {
        if ts.len() as u128 > i64::MAX as u128 {
            invalid("List length out of range.")
        } else {
            Type::var_list(ts.len() as i64)
        }
    } else {
        Type::const_list(consts)
    }
}

/// The ways the arguments of a call can be read.
enum ArgsType {
    OneNumber(NumberType),
    OneList(ListType),
    OneListAndOneNumber(ListType, NumberType),
}

spec fn args_view(a: ArgsType) -> ArgsView {
    match a {
        ArgsType::OneNumber(n) => ArgsView::OneNumber(Type::Number(n)@),
        ArgsType::OneList(l) => ArgsView::OneList(Type::List(l)@),
        ArgsType::OneListAndOneNumber(l, n) => ArgsView::ListAndNumber(
            Type::List(l)@,
            Type::Number(n)@,
        ),
    }
}

fn copy_list_type(l: &ListType) -> (r: ListType)
    ensures
        Type::List(r)@ == Type::List(*l)@,
{
    match l {
        ListType::ConstantList(v) => ListType::ConstantList(copy_values(v)),
        ListType::VariableList(n) => ListType::VariableList(*n),
    }
}

fn preprocess_call_args(ts: &Vec<Type>) -> (r: Result<ArgsType, String>)
    ensures
        r matches Ok(a) ==> classify_args(views(ts@)) == Some(args_view(a)),
        r is Err ==> classify_args(views(ts@)) is None,
{
    let ghost tv = views(ts@);
    if ts.len() == 0 {
        return Err(String::from_str("Function requires at least one argument."));
    }
    if ts.len() == 1 {
        match &ts[0] {
            Type::Number(n) => {
                return Ok(ArgsType::OneNumber(*n));
            },
            Type::List(l) => {
                return Ok(ArgsType::OneList(copy_list_type(l)));
            },
            Type::Invalid(_) => {},
        }
    }
    if ts.len() == 2 {
        match (&ts[0], &ts[1]) {
            (Type::List(l), Type::Number(n)) => {
                return Ok(ArgsType::OneListAndOneNumber(copy_list_type(l), *n));
            },
            _ => {},
        }
    }
    match type_of_list(ts) {
        Type::Invalid(s) => Err(s),
        Type::List(l) => Ok(ArgsType::OneList(l)),
        Type::Number(_) => Err(String::from_str("Arguments do not form a list.")),
    }
}

/// The largest (or smallest) item of a non-empty list.
fn extreme_of(v: &Vec<Rational>, largest: bool) -> (r: Rational)
    requires
        v@.len() > 0,
    ensures
        r@ == extreme(values(v@), largest),
{
    let ghost s = values(v@);
    let mut m = v[0];
    let mut i: usize = 1;
    assert(s.take(1).drop_last() =~= s.take(0));
    while i < v.len()
        invariant
            1 <= i <= v.len(),
            s == values(v@),
            m@ == extreme(s.take(i as int), largest),
        decreases v.len() - i,
    {
        let x = v[i];
        let wins = if largest {
            m.lt(&x)
        } else {
            x.lt(&m)
        };
        assert(s.take(i + 1).drop_last() =~= s.take(i as int));
        if wins {
            m = x;
        }
        i += 1;
    }
    assert(s.take(i as int) =~= s);
    m
}

fn better_exec(x: &Rational, y: &Rational, largest: bool) -> (r: bool)
    ensures
        r == better(x@, y@, largest),
{
    if largest {
        y.lt(x)
    } else {
        x.lt(y)
    }
}

/// The `n` largest (or smallest) items of `data`, ties going to the earlier
/// item, returned in the order they stand in `data`.
pub fn top_n_preserve_order(data: &Vec<Rational>, n: usize, largest: bool) -> (r: Vec<Rational>)
    ensures
        values(r@) == top_n(values(data@), n as nat, largest),
{
    let ghost s = values(data@);
    let mut out: Vec<Rational> = Vec::new();
    let mut i: usize = 0;
    while i < data.len()
        invariant
            i <= data.len(),
            s == values(data@),
            values(out@) == top_n_prefix(s, n as nat, largest, i as int),
        decreases data.len() - i,
    {
        let mut count: usize = 0;
        let mut j: usize = 0;
        while j < data.len()
            invariant
                j <= data.len(),
                i < data.len(),
                s == values(data@),
                count == rank_below(s, i as int, j as int, largest),
                count <= j,
            decreases data.len() - j,
        {
            let before = better_exec(&data[j], &data[i], largest) || (j < i && !better_exec(
                &data[i],
                &data[j],
                largest,
            ));
            if before {
                count += 1;
            }
            j += 1;
        }
        if count < n {
            out.push(data[i]);
            assert(values(out@) =~= top_n_prefix(s, n as nat, largest, i as int).push(s[i as int]));
        }
        i += 1;
    }
    out
}

proof fn lemma_sum_stays_none(s: Seq<(int, int)>, k: int)
    requires
        0 <= k <= s.len(),
        sum_of(s.take(k)) is None,
    ensures
        sum_of(s) is None,
    decreases s.len() - k,
{
    if k == s.len() {
        assert(s.take(k) =~= s);
    } else {
        assert(s.take(k + 1).drop_last() =~= s.take(k));
        lemma_sum_stays_none(s, k + 1);
    }
}

fn sum_values(v: &Vec<Rational>) -> (r: Option<Rational>)
    ensures
        r matches Some(x) ==> sum_of(values(v@)) == Some(x@),
        r is None ==> sum_of(values(v@)) is None,
{
    let ghost s = values(v@);
    let mut total = Rational::integer(0);
    let mut i: usize = 0;
    assert(s.take(0) =~= Seq::<(int, int)>::empty());
    while i < v.len()
        invariant
            i <= v.len(),
            s == values(v@),
            sum_of(s.take(i as int)) == Some(total@),
        decreases v.len() - i,
    {
        assert(s.take(i + 1).drop_last() =~= s.take(i as int));
        match total.add(&v[i]) {
            Some(t) => {
                total = t;
            },
            None => {
                proof {
                    lemma_sum_stays_none(s, i + 1);
                }
                return None;
            },
        }
        i += 1;
    }
    assert(s.take(i as int) =~= s);
    Some(total)
}

fn extreme_call(a: ArgsType, largest: bool) -> (r: Type)
    ensures
        r@ == extreme_rule(args_view(a), largest),
{
    match a {
        ArgsType::OneNumber(NumberType::Constant(c)) => Type::constant(c),
        ArgsType::OneNumber(NumberType::Variable(_)) => Type::unknown_var(),
        ArgsType::OneList(ListType::ConstantList(v)) => {
            if v.len() == 0 {
                invalid("max/min function requires at least one element.")
            } else {
                Type::constant(extreme_of(&v, largest))
            }
        },
        ArgsType::OneList(ListType::VariableList(_)) => Type::unknown_var(),
        ArgsType::OneListAndOneNumber(l, NumberType::Constant(c)) => {
            if !is_integer(&c) {
                return invalid("In min/max, the count parameter must be a positive integer.");
            }
            let n = c.to_int();
            if n <= 0 {
                return invalid("In min/max, the count parameter must be a positive integer.");
            }
            match l {
                ListType::VariableList(len) => {
                    if len < n {
                        invalid("In min/max, the list is shorter than the count parameter.")
                    } else {
                        Type::var_list(n)
                    }
                },
                ListType::ConstantList(v) => {
                    if (v.len() as u128) < (n as u128) {
                        invalid("In min/max, the list is shorter than the count parameter.")
                    } else {
                        Type::const_list(top_n_preserve_order(&v, n as usize, largest))
                    }
                },
            }
        },
        ArgsType::OneListAndOneNumber(_, NumberType::Variable(_)) => invalid(
            "If the first argument is a list, the second argument must be a constant number.",
        ),
    }
}

fn sum_call(a: ArgsType) -> (r: Type)
    ensures
        r@ == sum_rule(args_view(a)),
{
    match a {
        ArgsType::OneNumber(NumberType::Constant(c)) => Type::constant(c),
        ArgsType::OneNumber(NumberType::Variable(_)) => Type::unknown_var(),
        ArgsType::OneList(ListType::ConstantList(v)) => match sum_values(&v) {
            Some(t) => Type::constant(t),
            None => invalid("Number out of range."),
        },
        ArgsType::OneList(ListType::VariableList(_)) => Type::unknown_var(),
        ArgsType::OneListAndOneNumber(_, _) => invalid(
            "sum function does not accept one list and one number as arguments.",
        ),
    }
}

fn rounding_call(name: &String, a: ArgsType) -> (r: Type)
    ensures
        r@ == rounding_rule(name@, args_view(a)),
{
    match a {
        ArgsType::OneNumber(NumberType::Constant(c)) => {
            if name_is(name, "floor") {
                Type::constant(c.floor())
            } else if name_is(name, "ceil") {
                Type::constant(c.ceil())
            } else if name_is(name, "round") {
                Type::constant(c.round())
            } else {
                Type::constant(c.abs())
            }
        },
        ArgsType::OneNumber(NumberType::Variable(_)) => Type::unknown_var(),
        _ => invalid("This function requires a single numeric argument."),
    }
}

fn rpdice_call(ts: &Vec<Type>) -> (r: Type)
    requires
        ts@.len() >= 1,
    ensures
        r@ == rpdice_rule(views(ts@)),
{
    let first = match &ts[0] {
        Type::Number(NumberType::Variable(VariableNumber::DicePool(_))) => Type::unknown_var(),
        t => copy_type(t),
    };
    if ts.len() == 1 {
        first
    } else if ts.len() == 2 {
        match &ts[1] {
            Type::Number(NumberType::Constant(c)) => {
                if !is_integer(c) || c.to_int() <= 1 {
                    invalid("In rpdice, the repeat count must be an integer larger than 1.")
                } else {
                    first
                }
            },
            Type::Number(NumberType::Variable(_)) => invalid(
                "In rpdice, the repeat count must be a constant integer.",
            ),
            _ => invalid("rpdice requires one argument, or one argument and a repeat count."),
        }
    } else {
        invalid("rpdice requires one argument, or one argument and a repeat count.")
    }
}

fn type_of_call(func_name: &String, ts: &Vec<Type>) -> (r: Type)
    ensures
        r@ == call_rule(func_name@, views(ts@)),
{
    let args = match preprocess_call_args(ts) {
        Err(s) => {
            return Type::Invalid(s);
        },
        Ok(a) => a,
    };
    let is_max = name_is(func_name, "max");
    if is_max || name_is(func_name, "min") {
        extreme_call(args, is_max)
    } else if name_is(func_name, "sum") {
        sum_call(args)
    } else if name_is(func_name, "floor") || name_is(func_name, "ceil") || name_is(
        func_name,
        "round",
    ) || name_is(func_name, "abs") {
        rounding_call(func_name, args)
    } else if name_is(func_name, "rpdice") {
        rpdice_call(ts)
    } else {
        invalid("Unknown function.")
    }
}

/// The analysed parameter of a modifier.
enum ParamType {
    Absent,
    Value(Type),
    Compare(Type),
}

spec fn param_view(p: ParamType) -> ParamView {
    match p {
        ParamType::Absent => ParamView::Absent,
        ParamType::Value(t) => ParamView::Value(t@),
        ParamType::Compare(t) => ParamView::Compare(t@),
    }
}

/// The count of keep / drop / limit.
fn positive_integer_constant(param: &ParamType) -> (r: Result<i64, String>)
    ensures
        r matches Ok(c) ==> count_param(param_view(*param)) == Some(c as int),
        r is Err ==> count_param(param_view(*param)) is None,
{
    match param {
        ParamType::Value(Type::Invalid(s)) => Err(s.clone()),
        ParamType::Value(Type::Number(NumberType::Constant(c))) => {
            if is_integer(c) && c.to_int() >= 0 {
                Ok(c.to_int())
            } else {
                Err(String::from_str("Modifier parameter must be a non-negative integer."))
            }
        },
        ParamType::Value(_) => Err(String::from_str("Modifier parameter must be a constant number.")),
        _ => Err(String::from_str("Modifier requires a count parameter.")),
    }
}

/// An optional comparison with a constant target; `Ok(true)` when present.
fn valid_compare_param(param: &ParamType) -> (r: Result<bool, String>)
    ensures
        r matches Ok(present) ==> compare_ok(param_view(*param)) && (present <==> param is Compare),
        r is Err ==> !compare_ok(param_view(*param)),
{
    match param {
        ParamType::Compare(Type::Invalid(s)) => Err(s.clone()),
        ParamType::Compare(Type::Number(NumberType::Constant(_))) => Ok(true),
        ParamType::Compare(Type::Number(NumberType::Variable(_))) => Err(
            String::from_str("Comparison modifier cannot have a variable comparison parameter."),
        ),
        ParamType::Compare(_) => Err(
            String::from_str("Comparison modifier requires a numeric comparison parameter."),
        ),
        ParamType::Value(_) => Err(
            String::from_str("Comparison modifier requires a comparison parameter, not a value."),
        ),
        ParamType::Absent => Ok(false),
    }
}

fn type_of_modifier(lhs: Type, op: ModifierOp, param: ParamType) -> (r: Type)
    ensures
        r@ == modifier_rule(lhs@, op, param_view(param)),
{
    let (item, limitable) = match lhs {
        Type::Invalid(s) => {
            return Type::Invalid(s);
        },
        Type::Number(
            NumberType::Variable(VariableNumber::DicePool(DicePoolType::RawDicePool(item))),
        ) => (item, false),
        Type::Number(
            NumberType::Variable(VariableNumber::DicePool(DicePoolType::LimitableDicePool(item))),
        ) => (item, true),
        _ => {
            return invalid("Modifiers can only be applied to dice expressions.");
        },
    };
    match op {
        ModifierOp::KeepHigh | ModifierOp::KeepLow | ModifierOp::DropHigh | ModifierOp::DropLow => {
            match positive_integer_constant(&param) {
                Err(s) => Type::Invalid(s),
                Ok(c) => {
                    let keep = matches!(op, ModifierOp::KeepHigh) || matches!(
                        op,
                        ModifierOp::KeepLow
                    );
                    let remain: i128 = if keep {
                        c as i128
                    } else {
                        item.min_count as i128 - c as i128
                    };
                    if remain <= 0 || remain > item.min_count as i128 {
                        invalid("Drop / keep count exceeds dice pool size.")
                    } else {
                        Type::raw_dice_pool(DiceItem { min_count: remain as i64, side: item.side })
                    }
                },
            }
        },
        ModifierOp::Reroll | ModifierOp::RerollOnce => match valid_compare_param(&param) {
            Err(s) => Type::Invalid(s),
            Ok(false) => invalid("Modifier requires a comparison parameter."),
            Ok(true) => Type::raw_dice_pool(item),
        },
        ModifierOp::Explode => match valid_compare_param(&param) {
            Err(s) => Type::Invalid(s),
            Ok(_) => Type::raw_dice_pool(item),
        },
        ModifierOp::ExplodeCompound => match valid_compare_param(&param) {
            Err(s) => Type::Invalid(s),
            Ok(_) => Type::limitable_dice_pool(item),
        },
        ModifierOp::Limit => match positive_integer_constant(&param) {
            Err(s) => Type::Invalid(s),
            Ok(c) => {
                if c <= 0 {
                    invalid("Limit modifier requires a positive integer.")
                } else if !limitable {
                    invalid("Limit modifier can only be applied to limitable dice pools.")
                } else {
                    Type::raw_dice_pool(item)
                }
            },
        },
    }
}

fn type_of_success_check(lhs: Type, target: Type) -> (r: Type)
    ensures
        r@ == success_rule(lhs@, target@),
{
    match lhs {
        Type::Invalid(s) => Type::Invalid(s),
        Type::Number(NumberType::Variable(VariableNumber::DicePool(_))) => match target {
            Type::Invalid(s) => Type::Invalid(s),
            Type::Number(NumberType::Constant(_)) => Type::unknown_var(),
            Type::Number(NumberType::Variable(_)) => invalid(
                "Comparison parameter for success check cannot be a variable number.",
            ),
            Type::List(_) => invalid(
                "Comparison parameter for success check must be a numeric expression.",
            ),
        },
        _ => invalid("Success check can only be applied to dice expressions."),
    }
}

/// Analyses each expression of a sequence, in order.
fn typecheck_all(items: &Vec<Expr>) -> (r: Vec<Type>)
    ensures
        views(r@) == types_of(expr_views(items@)),
    decreases items, 0nat,
{
    let ghost ev = expr_views(items@);
    proof {
        lemma_types_of(ev);
        lemma_expr_views(items@);
    }
    let mut out: Vec<Type> = Vec::new();
    let mut i: usize = 0;
    while i < items.len()
        invariant
            i <= items.len(),
            out@.len() == i,
            ev == expr_views(items@),
            types_of(ev).len() == items@.len(),
            forall|j: int|
                0 <= j < items@.len() ==> #[trigger] types_of(ev)[j] == typecheck_spec(
                    expr_view(items@[j]),
                ),
            forall|j: int| 0 <= j < i ==> #[trigger] out@[j]@ == types_of(ev)[j],
        decreases items.len() - i,
    {
        let t = typecheck_expr(&items[i]);
        out.push(t);
        i += 1;
    }
    assert(views(out@) =~= types_of(ev));
    out
}

/// Classifies the result of `expr` and folds its constants; errors come back
/// as `Type::Invalid` with a message.
pub fn typecheck_expr(expr: &Expr) -> (r: Type)
    ensures
        r@ == typecheck_spec(expr_view(*expr)),
    decreases expr, 1nat,
{
    match expr {
        Expr::Number(x) => Type::constant(*x),
        Expr::Dice { count, side } => {
            let c = typecheck_expr(count);
            let s = typecheck_expr(side);
            type_of_dice(c, s)
        },
        Expr::Binary { lhs, op, rhs } => {
            let l = typecheck_expr(lhs);
            let r = typecheck_expr(rhs);
            type_of_binary_op(l, *op, r)
        },
        Expr::Call { func_name, args } => {
            let ts = typecheck_all(args);
            type_of_call(func_name, &ts)
        },
        Expr::List(items) => {
            let ts = typecheck_all(items);
            type_of_list(&ts)
        },
        Expr::Modifier { lhs, op, param } => {
            let l = typecheck_expr(lhs);
            let p = match param {
                None => ParamType::Absent,
                Some(ModifierParam::Value(v)) => ParamType::Value(typecheck_expr(v)),
                Some(ModifierParam::Compare(c)) => ParamType::Compare(typecheck_expr(&c.val)),
            };
            type_of_modifier(l, *op, p)
        },
        Expr::SuccessCheck { lhs, compare_expr } => {
            let l = typecheck_expr(lhs);
            let t = typecheck_expr(&compare_expr.val);
            type_of_success_check(l, t)
        },
    }
}

} // verus!
