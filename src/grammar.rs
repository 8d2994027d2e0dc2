//! The abstract syntax of dice expressions and the parser that builds it.
//!
//! Over the tokens of `lexer`, from loosest to tightest binding:
//!
//! ```text
//! sum      := product (('+' | '-') product)*
//! product  := unary (('*' | '/' | '//' | '%') unary)*
//! unary    := '-' unary | '+' unary | primary suffix*
//! primary  := 'd' atom | atom ('d' atom)?
//! atom     := number | name '(' items ')' | '[' items ']' | '(' sum ')'
//! items    := (sum (',' sum)*)?
//! suffix   := ('kh' | 'kl' | 'dh' | 'dl') atom?
//!           | ('r' | 'ro') param
//!           | ('!' | '!!') param?
//!           | 'l' atom
//!           | cmp atom
//! param    := cmp atom | atom
//! ```
//!
//! Infix operators associate to the left, `-x` stands for `0 - x`, a keep or
//! drop without a count keeps or drops one die, and a bare `param` target is
//! compared with `=`. Each spec function below takes a token position and
//! gives the tree it reads there and the position after it; the checks
//! `p < q` only record that every rule consumes a token.
use vstd::prelude::*;

use crate::lexer::{lex, tok_views, tokenize, Punct, TokView, Token};
use crate::number::Rational;
use vstd::string::{StringExecFns, StringSliceAdditionalSpecFns};

verus! {

/// Infix arithmetic operators.
#[derive(Clone, Copy, Debug, PartialEq, Eq, Structural)]
pub enum BinOp {
    Add,
    Sub,
    Mul,
    Div,
    Mod,
    Idiv,
}

/// Comparison operators of reroll / explode parameters and success checks.
#[derive(Clone, Copy, Debug, PartialEq, Eq, Structural)]
pub enum CompareOp {
    Greater,
    Less,
    Equal,
    GreaterEqual,
    LessEqual,
}

/// Postfix dice-pool modifiers.
#[derive(Clone, Copy, Debug, PartialEq, Eq, Structural)]
pub enum ModifierOp {
    KeepHigh,
    KeepLow,
    DropHigh,
    DropLow,
    Reroll,
    RerollOnce,
    Explode,
    ExplodeCompound,
    Limit,
}

/// A comparison against a target value, such as `<=4`.
#[derive(Debug, PartialEq)]
pub struct CompareExpr {
    pub op: CompareOp,
    pub val: Box<Expr>,
}

/// The parameter of a modifier: a comparison or a plain value.
#[derive(Debug, PartialEq)]
pub enum ModifierParam {
    Compare(CompareExpr),
    Value(Box<Expr>),
}

/// A node of the expression tree; each node owns its children.
#[derive(Debug, PartialEq)]
pub enum Expr {
    /// A literal, such as `1` or `1.5`.
    Number(Rational),
    /// `count d side`, as in `2d20` or `(1+2)d6`.
    Dice { count: Box<Expr>, side: Box<Expr> },
    /// `lhs op rhs`.
    Binary { lhs: Box<Expr>, op: BinOp, rhs: Box<Expr> },
    /// A builtin function applied to arguments, as in `max(1, 2)`.
    Call { func_name: String, args: Vec<Expr> },
    /// A list literal, as in `[1, 2]`.
    List(Vec<Expr>),
    /// A modifier such as `kh1`, `r>5` or `!!` applied to `lhs`.
    Modifier { lhs: Box<Expr>, op: ModifierOp, param: Option<ModifierParam> },
    /// A success check such as `>10` applied to `lhs`.
    SuccessCheck { lhs: Box<Expr>, compare_expr: CompareExpr },
}

/// The mathematical content of an [`Expr`]: numbers as fractions
/// (numerator, denominator), children as sequences.
pub enum ExprView {
    Number((int, int)),
    Dice(Box<ExprView>, Box<ExprView>),
    Binary(Box<ExprView>, BinOp, Box<ExprView>),
    Call(Seq<char>, Seq<ExprView>),
    List(Seq<ExprView>),
    Modifier(Box<ExprView>, ModifierOp, ParamModel),
    SuccessCheck(Box<ExprView>, CompareOp, Box<ExprView>),
}

/// The parameter of a modifier, in an [`ExprView`].
pub enum ParamModel {
    Absent,
    Value(Box<ExprView>),
    Compare(CompareOp, Box<ExprView>),
}

pub open spec fn expr_view(e: Expr) -> ExprView
    decreases e,
{
    match e {
        Expr::Number(x) => ExprView::Number(x@),
        Expr::Dice { count, side } => ExprView::Dice(
            Box::new(expr_view(*count)),
            Box::new(expr_view(*side)),
        ),
        Expr::Binary { lhs, op, rhs } => ExprView::Binary(
            Box::new(expr_view(*lhs)),
            op,
            Box::new(expr_view(*rhs)),
        ),
        Expr::Call { func_name, args } => ExprView::Call(func_name@, expr_views(args@)),
        Expr::List(items) => ExprView::List(expr_views(items@)),
        Expr::Modifier { lhs, op, param } => ExprView::Modifier(
            Box::new(expr_view(*lhs)),
            op,
            match param {
                None => ParamModel::Absent,
                Some(ModifierParam::Value(v)) => ParamModel::Value(Box::new(expr_view(*v))),
                Some(ModifierParam::Compare(c)) => ParamModel::Compare(
                    c.op,
                    Box::new(expr_view(*c.val)),
                ),
            },
        ),
        Expr::SuccessCheck { lhs, compare_expr } => ExprView::SuccessCheck(
            Box::new(expr_view(*lhs)),
            compare_expr.op,
            Box::new(expr_view(*compare_expr.val)),
        ),
    }
}

pub open spec fn expr_views(s: Seq<Expr>) -> Seq<ExprView>
    decreases s,
{
    if s.len() == 0 {
        Seq::empty()
    } else {
        expr_views(s.drop_last()).push(expr_view(s.last()))
    }
}

pub proof fn lemma_expr_views(s: Seq<Expr>)
    ensures
        expr_views(s).len() == s.len(),
        forall|j: int| 0 <= j < s.len() ==> #[trigger] expr_views(s)[j] == expr_view(s[j]),
    decreases s.len(),
{
    if s.len() > 0 {
        lemma_expr_views(s.drop_last());
    }
}

proof fn lemma_expr_views_push(s: Seq<Expr>, e: Expr)
    ensures
        expr_views(s.push(e)) == expr_views(s).push(expr_view(e)),
{
    assert(s.push(e).drop_last() =~= s);
}

pub open spec fn punct_is(t: Seq<TokView>, p: int, x: Punct) -> bool {
    0 <= p < t.len() && t[p] == TokView::Punct(x)
}

pub open spec fn word_is(t: Seq<TokView>, p: int, w: Seq<char>) -> bool {
    0 <= p < t.len() && t[p] == TokView::Word(w)
}

pub open spec fn one() -> ExprView {
    ExprView::Number((1, 1))
}

/// `number | name '(' items ')' | '[' items ']' | '(' sum ')'`.
pub open spec fn p_atom(t: Seq<TokView>, p: int) -> Option<(ExprView, int)>
    decreases t.len() - p, 1nat,
{
    if p < 0 || p >= t.len() {
        None
    } else {
        match t[p] {
            TokView::Num(x) => Some((ExprView::Number(x), p + 1)),
            TokView::Word(w) => if punct_is(t, p + 1, Punct::LParen) {
                match p_items(t, p + 2, Punct::RParen) {
                    Some((args, q)) => Some((ExprView::Call(w, args), q)),
                    None => None,
                }
            } else {
                None
            },
            TokView::Punct(Punct::LBracket) => match p_items(t, p + 1, Punct::RBracket) {
                Some((items, q)) => Some((ExprView::List(items), q)),
                None => None,
            },
            TokView::Punct(Punct::LParen) => match p_sum(t, p + 1) {
                Some((e, q)) => if punct_is(t, q, Punct::RParen) {
                    Some((e, q + 1))
                } else {
                    None
                },
                None => None,
            },
            _ => None,
        }
    }
}

/// Comma-separated expressions up to the closing token `close`.
pub open spec fn p_items(t: Seq<TokView>, p: int, close: Punct) -> Option<(Seq<ExprView>, int)>
    decreases t.len() - p, 11nat,
{
    if p < 0 || p > t.len() {
        None
    } else if punct_is(t, p, close) {
        Some((Seq::empty(), p + 1))
    } else {
        match p_sum(t, p) {
            Some((e, q)) => if p < q <= t.len() {
                p_items_rest(t, q, close, seq![e])
            } else {
                None
            },
            None => None,
        }
    }
}

pub open spec fn p_items_rest(t: Seq<TokView>, p: int, close: Punct, acc: Seq<ExprView>) -> Option<
    (Seq<ExprView>, int),
>
    decreases t.len() - p, 0nat,
{
    if p < 0 || p > t.len() {
        None
    } else if punct_is(t, p, close) {
        Some((acc, p + 1))
    } else if punct_is(t, p, Punct::Comma) {
        match p_sum(t, p + 1) {
            Some((e, q)) => if p < q <= t.len() {
                p_items_rest(t, q, close, acc.push(e))
            } else {
                None
            },
            None => None,
        }
    } else {
        None
    }
}

/// `'d' atom | atom ('d' atom)?`; a missing count is 1.
pub open spec fn p_primary(t: Seq<TokView>, p: int) -> Option<(ExprView, int)>
    decreases t.len() - p, 2nat,
{
    if p < 0 || p > t.len() {
        None
    } else if word_is(t, p, "d"@) && p_atom(t, p + 1) is Some {
        let (side, q) = p_atom(t, p + 1)->0;
        Some((ExprView::Dice(Box::new(one()), Box::new(side)), q))
    } else {
        match p_atom(t, p) {
            Some((a, q)) => if p < q && word_is(t, q, "d"@) && p_atom(t, q + 1) is Some {
                let (side, r) = p_atom(t, q + 1)->0;
                Some((ExprView::Dice(Box::new(a), Box::new(side)), r))
            } else {
                Some((a, q))
            },
            None => None,
        }
    }
}

/// A comparison and its target, or a bare target compared with `=`.
pub open spec fn p_modparam(t: Seq<TokView>, p: int) -> Option<(CompareOp, ExprView, int)>
    decreases t.len() - p, 2nat,
{
    if p < 0 || p > t.len() {
        None
    } else if p < t.len() && t[p] is Punct && t[p]->Punct_0 is Cmp {
        match p_atom(t, p + 1) {
            Some((v, q)) => Some((t[p]->Punct_0->Cmp_0, v, q)),
            None => None,
        }
    } else {
        match p_atom(t, p) {
            Some((v, q)) => Some((CompareOp::Equal, v, q)),
            None => None,
        }
    }
}

pub open spec fn keep_drop_op(w: Seq<char>) -> ModifierOp {
    if w == "kh"@ {
        ModifierOp::KeepHigh
    } else if w == "kl"@ {
        ModifierOp::KeepLow
    } else if w == "dh"@ {
        ModifierOp::DropHigh
    } else {
        ModifierOp::DropLow
    }
}

/// One postfix suffix applied to `lhs`.
pub open spec fn p_suffix(t: Seq<TokView>, p: int, lhs: ExprView) -> Option<(ExprView, int)>
    decreases t.len() - p, 3nat,
{
    if p < 0 || p >= t.len() {
        None
    } else {
        match t[p] {
            TokView::Word(w) => if w == "kh"@ || w == "kl"@ || w == "dh"@ || w == "dl"@ {
                let op = keep_drop_op(w);
                match p_atom(t, p + 1) {
                    Some((v, q)) => Some(
                        (ExprView::Modifier(Box::new(lhs), op, ParamModel::Value(Box::new(v))), q),
                    ),
                    None => Some(
                        (
                            ExprView::Modifier(Box::new(lhs), op, ParamModel::Value(Box::new(one()))),
                            p + 1,
                        ),
                    ),
                }
            } else if w == "r"@ || w == "ro"@ {
                let op = if w == "r"@ {
                    ModifierOp::Reroll
                } else {
                    ModifierOp::RerollOnce
                };
                match p_modparam(t, p + 1) {
                    Some((c, v, q)) => Some(
                        (ExprView::Modifier(Box::new(lhs), op, ParamModel::Compare(c, Box::new(v))), q),
                    ),
                    None => None,
                }
            } else if w == "l"@ {
                match p_atom(t, p + 1) {
                    Some((v, q)) => Some(
                        (
                            ExprView::Modifier(
                                Box::new(lhs),
                                ModifierOp::Limit,
                                ParamModel::Value(Box::new(v)),
                            ),
                            q,
                        ),
                    ),
                    None => None,
                }
            } else {
                None
            },
            TokView::Punct(Punct::Bang) | TokView::Punct(Punct::DoubleBang) => {
                let op = if t[p] == TokView::Punct(Punct::Bang) {
                    ModifierOp::Explode
                } else {
                    ModifierOp::ExplodeCompound
                };
                match p_modparam(t, p + 1) {
                    Some((c, v, q)) => Some(
                        (ExprView::Modifier(Box::new(lhs), op, ParamModel::Compare(c, Box::new(v))), q),
                    ),
                    None => Some((ExprView::Modifier(Box::new(lhs), op, ParamModel::Absent), p + 1)),
                }
            },
            TokView::Punct(Punct::Cmp(c)) => match p_atom(t, p + 1) {
                Some((v, q)) => Some((ExprView::SuccessCheck(Box::new(lhs), c, Box::new(v)), q)),
                None => None,
            },
            _ => None,
        }
    }
}

/// As many suffixes as follow, applied left to right.
pub open spec fn p_suffixes(t: Seq<TokView>, p: int, lhs: ExprView) -> (ExprView, int)
    decreases t.len() - p, 4nat,
{
    if p < 0 || p > t.len() {
        (lhs, p)
    } else {
        match p_suffix(t, p, lhs) {
            Some((e, q)) => if p < q <= t.len() {
                p_suffixes(t, q, e)
            } else {
                (lhs, p)
            },
            None => (lhs, p),
        }
    }
}

pub open spec fn p_postfix(t: Seq<TokView>, p: int) -> Option<(ExprView, int)>
    decreases t.len() - p, 5nat,
{
    if p < 0 || p > t.len() {
        None
    } else {
        match p_primary(t, p) {
            Some((e, q)) => if p < q <= t.len() {
                Some(p_suffixes(t, q, e))
            } else {
                None
            },
            None => None,
        }
    }
}

/// Prefix signs: `-x` is `0 - x`, `+x` is `x`.
pub open spec fn p_unary(t: Seq<TokView>, p: int) -> Option<(ExprView, int)>
    decreases t.len() - p, 6nat,
{
    if p < 0 || p > t.len() {
        None
    } else if punct_is(t, p, Punct::Minus) {
        match p_unary(t, p + 1) {
            Some((e, q)) => Some(
                (ExprView::Binary(Box::new(ExprView::Number((0, 1))), BinOp::Sub, Box::new(e)), q),
            ),
            None => None,
        }
    } else if punct_is(t, p, Punct::Plus) {
        p_unary(t, p + 1)
    } else {
        p_postfix(t, p)
    }
}

/// The multiplicative operator at `p`, if any.
pub open spec fn mul_op_at(t: Seq<TokView>, p: int) -> Option<BinOp> {
    if punct_is(t, p, Punct::Star) {
        Some(BinOp::Mul)
    } else if punct_is(t, p, Punct::Slash) {
        Some(BinOp::Div)
    } else if punct_is(t, p, Punct::DoubleSlash) {
        Some(BinOp::Idiv)
    } else if punct_is(t, p, Punct::Percent) {
        Some(BinOp::Mod)
    } else {
        None
    }
}

/// The additive operator at `p`, if any.
pub open spec fn add_op_at(t: Seq<TokView>, p: int) -> Option<BinOp> {
    if punct_is(t, p, Punct::Plus) {
        Some(BinOp::Add)
    } else if punct_is(t, p, Punct::Minus) {
        Some(BinOp::Sub)
    } else {
        None
    }
}

pub open spec fn p_product_rest(t: Seq<TokView>, p: int, lhs: ExprView) -> Option<(ExprView, int)>
    decreases t.len() - p, 0nat,
{
    if p < 0 || p > t.len() {
        None
    } else {
        match mul_op_at(t, p) {
            Some(op) => match p_unary(t, p + 1) {
                Some((r, q)) => if p < q <= t.len() {
                    p_product_rest(t, q, ExprView::Binary(Box::new(lhs), op, Box::new(r)))
                } else {
                    None
                },
                None => None,
            },
            None => Some((lhs, p)),
        }
    }
}

/// Left-associative `* / // %`.
pub open spec fn p_product(t: Seq<TokView>, p: int) -> Option<(ExprView, int)>
    decreases t.len() - p, 8nat,
{
    if p < 0 || p > t.len() {
        None
    } else {
        match p_unary(t, p) {
            Some((e, q)) => if p < q <= t.len() {
                p_product_rest(t, q, e)
            } else {
                None
            },
            None => None,
        }
    }
}

pub open spec fn p_sum_rest(t: Seq<TokView>, p: int, lhs: ExprView) -> Option<(ExprView, int)>
    decreases t.len() - p, 0nat,
{
    if p < 0 || p > t.len() {
        None
    } else {
        match add_op_at(t, p) {
            Some(op) => match p_product(t, p + 1) {
                Some((r, q)) => if p < q <= t.len() {
                    p_sum_rest(t, q, ExprView::Binary(Box::new(lhs), op, Box::new(r)))
                } else {
                    None
                },
                None => None,
            },
            None => Some((lhs, p)),
        }
    }
}

/// Left-associative `+ -`: a whole expression.
pub open spec fn p_sum(t: Seq<TokView>, p: int) -> Option<(ExprView, int)>
    decreases t.len() - p, 10nat,
{
    if p < 0 || p > t.len() {
        None
    } else {
        match p_product(t, p) {
            Some((e, q)) => if p < q <= t.len() {
                p_sum_rest(t, q, e)
            } else {
                None
            },
            None => None,
        }
    }
}

/// The expression that the tokens spell out, all of them used.
pub open spec fn parse_tokens(t: Seq<TokView>) -> Option<ExprView> {
    match p_sum(t, 0) {
        Some((e, q)) => if q == t.len() {
            Some(e)
        } else {
            None
        },
        None => None,
    }
}

/// The expression that the text (as UTF-8 bytes) spells out.
pub open spec fn parse_spec(s: Seq<u8>) -> Option<ExprView> {
    match lex(s, 0) {
        Some(t) => parse_tokens(t),
        None => None,
    }
}

pub(crate) fn name_is(name: &String, lit: &str) -> (r: bool)
    ensures
        r == (name@ == lit@),
{
    let l = String::from_str(lit);
    *name == l
}

fn is_punct(t: &Vec<Token>, p: usize, x: Punct) -> (r: bool)
    ensures
        r == punct_is(tok_views(t@), p as int, x),
        r ==> p < t@.len(),
        t@.len() <= usize::MAX,
{
    if p < t.len() {
        match &t[p] {
            Token::Punct(y) => *y == x,
            _ => false,
        }
    } else {
        false
    }
}

fn is_word(t: &Vec<Token>, p: usize, w: &str) -> (r: bool)
    ensures
        r == word_is(tok_views(t@), p as int, w@),
        r ==> p < t@.len(),
        t@.len() <= usize::MAX,
{
    if p < t.len() {
        match &t[p] {
            Token::Word(x) => name_is(x, w),
            _ => false,
        }
    } else {
        false
    }
}

fn number_one() -> (r: Expr)
    ensures
        expr_view(r) == one(),
{
    Expr::Number(Rational::integer(1))
}

fn parse_atom(t: &Vec<Token>, p: usize) -> (r: Option<(Expr, usize)>)
    requires
        p <= t@.len(),
    ensures
        r matches Some((e, q)) ==> p_atom(tok_views(t@), p as int) == Some((expr_view(e), q as int))
            && p < q <= t@.len(),
        r is None ==> p_atom(tok_views(t@), p as int) is None,
    decreases t@.len() - p, 1nat,
{
    if p >= t.len() {
        return None;
    }
    match &t[p] {
        Token::Num(x) => Some((Expr::Number(*x), p + 1)),
        Token::Word(w) => {
            if is_punct(t, p + 1, Punct::LParen) {
                match parse_items(t, p + 2, Punct::RParen) {
                    Some((args, q)) => Some((Expr::Call { func_name: w.clone(), args }, q)),
                    None => None,
                }
            } else {
                None
            }
        },
        Token::Punct(Punct::LBracket) => match parse_items(t, p + 1, Punct::RBracket) {
            Some((items, q)) => Some((Expr::List(items), q)),
            None => None,
        },
        Token::Punct(Punct::LParen) => match parse_sum(t, p + 1) {
            Some((e, q)) => {
                if is_punct(t, q, Punct::RParen) {
                    Some((e, q + 1))
                } else {
                    None
                }
            },
            None => None,
        },
        _ => None,
    }
}

fn parse_items(t: &Vec<Token>, p: usize, close: Punct) -> (r: Option<(Vec<Expr>, usize)>)
    requires
        p <= t@.len(),
    ensures
        r matches Some((v, q)) ==> p_items(tok_views(t@), p as int, close) == Some(
            (expr_views(v@), q as int),
        ) && p < q <= t@.len(),
        r is None ==> p_items(tok_views(t@), p as int, close) is None,
    decreases t@.len() - p, 11nat,
{
    if is_punct(t, p, close) {
        proof {
            assert(expr_views(Seq::<Expr>::empty()) =~= Seq::<ExprView>::empty());
        }
        return Some((Vec::new(), p + 1));
    }
    match parse_sum(t, p) {
        Some((e, q)) => {
            let mut acc: Vec<Expr> = Vec::new();
            proof {
                lemma_expr_views_push(acc@, e);
                assert(expr_views(acc@) =~= Seq::<ExprView>::empty());
                assert(expr_views(acc@).push(expr_view(e)) =~= seq![expr_view(e)]);
            }
            acc.push(e);
            parse_items_rest(t, q, close, acc)
        },
        None => None,
    }
}

fn parse_items_rest(t: &Vec<Token>, p: usize, close: Punct, acc: Vec<Expr>) -> (r: Option<
    (Vec<Expr>, usize),
>)
    requires
        p <= t@.len(),
    ensures
        r matches Some((v, q)) ==> p_items_rest(tok_views(t@), p as int, close, expr_views(acc@))
            == Some((expr_views(v@), q as int)) && p < q <= t@.len(),
        r is None ==> p_items_rest(tok_views(t@), p as int, close, expr_views(acc@)) is None,
    decreases t@.len() - p, 0nat,
{
    if is_punct(t, p, close) {
        return Some((acc, p + 1));
    }
    if is_punct(t, p, Punct::Comma) {
        match parse_sum(t, p + 1) {
            Some((e, q)) => {
                let mut acc = acc;
                proof {
                    lemma_expr_views_push(acc@, e);
                }
                acc.push(e);
                match parse_items_rest(t, q, close, acc) {
                    Some((v, r)) => Some((v, r)),
                    None => None,
                }
            },
            None => None,
        }
    } else {
        None
    }
}

fn parse_primary(t: &Vec<Token>, p: usize) -> (r: Option<(Expr, usize)>)
    requires
        p <= t@.len(),
    ensures
        r matches Some((e, q)) ==> p_primary(tok_views(t@), p as int) == Some(
            (expr_view(e), q as int),
        ) && p < q <= t@.len(),
        r is None ==> p_primary(tok_views(t@), p as int) is None,
    decreases t@.len() - p, 2nat,
{
    if is_word(t, p, "d") {
        match parse_atom(t, p + 1) {
            Some((side, q)) => {
                return Some(
                    (Expr::Dice { count: Box::new(number_one()), side: Box::new(side) }, q),
                );
            },
            None => {},
        }
    }
    match parse_atom(t, p) {
        Some((a, q)) => {
            if is_word(t, q, "d") {
                match parse_atom(t, q + 1) {
                    Some((side, r)) => Some(
                        (Expr::Dice { count: Box::new(a), side: Box::new(side) }, r),
                    ),
                    None => Some((a, q)),
                }
            } else {
                Some((a, q))
            }
        },
        None => None,
    }
}

fn parse_modparam(t: &Vec<Token>, p: usize) -> (r: Option<(CompareOp, Expr, usize)>)
    requires
        p <= t@.len(),
    ensures
        r matches Some((c, e, q)) ==> p_modparam(tok_views(t@), p as int) == Some(
            (c, expr_view(e), q as int),
        ) && p < q <= t@.len(),
        r is None ==> p_modparam(tok_views(t@), p as int) is None,
    decreases t@.len() - p, 2nat,
{
    if p < t.len() {
        match &t[p] {
            Token::Punct(Punct::Cmp(c)) => {
                return match parse_atom(t, p + 1) {
                    Some((v, q)) => Some((*c, v, q)),
                    None => None,
                };
            },
            _ => {},
        }
    }
    match parse_atom(t, p) {
        Some((v, q)) => Some((CompareOp::Equal, v, q)),
        None => None,
    }
}

fn modifier(lhs: Expr, op: ModifierOp, param: Option<ModifierParam>) -> (r: Expr)
    ensures
        r == (Expr::Modifier { lhs: Box::new(lhs), op, param }),
{
    Expr::Modifier { lhs: Box::new(lhs), op, param }
}

/// One suffix applied to `lhs`; `lhs` comes back when none follows.
fn parse_suffix(t: &Vec<Token>, p: usize, lhs: Expr) -> (r: Result<(Expr, usize), Expr>)
    requires
        p <= t@.len(),
    ensures
        r matches Ok((e, q)) ==> p_suffix(tok_views(t@), p as int, expr_view(lhs)) == Some(
            (expr_view(e), q as int),
        ) && p < q <= t@.len(),
        r matches Err(back) ==> p_suffix(tok_views(t@), p as int, expr_view(lhs)) is None && back
            == lhs,
    decreases t@.len() - p, 3nat,
{
    if p >= t.len() {
        return Err(lhs);
    }
    match &t[p] {
        Token::Word(w) => {
            if name_is(w, "kh") || name_is(w, "kl") || name_is(w, "dh") || name_is(w, "dl") {
                let op = if name_is(w, "kh") {
                    ModifierOp::KeepHigh
                } else if name_is(w, "kl") {
                    ModifierOp::KeepLow
                } else if name_is(w, "dh") {
                    ModifierOp::DropHigh
                } else {
                    ModifierOp::DropLow
                };
                match parse_atom(t, p + 1) {
                    Some((v, q)) => Ok(
                        (modifier(lhs, op, Some(ModifierParam::Value(Box::new(v)))), q),
                    ),
                    None => Ok(
                        (modifier(lhs, op, Some(ModifierParam::Value(Box::new(number_one())))), p
                            + 1),
                    ),
                }
            } else if name_is(w, "r") || name_is(w, "ro") {
                let op = if name_is(w, "r") {
                    ModifierOp::Reroll
                } else {
                    ModifierOp::RerollOnce
                };
                match parse_modparam(t, p + 1) {
                    Some((c, v, q)) => Ok(
                        (
                            modifier(
                                lhs,
                                op,
                                Some(ModifierParam::Compare(CompareExpr { op: c, val: Box::new(v) })),
                            ),
                            q,
                        ),
                    ),
                    None => Err(lhs),
                }
            } else if name_is(w, "l") {
                match parse_atom(t, p + 1) {
                    Some((v, q)) => Ok(
                        (modifier(lhs, ModifierOp::Limit, Some(ModifierParam::Value(Box::new(v)))), q),
                    ),
                    None => Err(lhs),
                }
            } else {
                Err(lhs)
            }
        },
        Token::Punct(Punct::Bang) | Token::Punct(Punct::DoubleBang) => {
            let op = if is_punct(t, p, Punct::Bang) {
                ModifierOp::Explode
            } else {
                ModifierOp::ExplodeCompound
            };
            match parse_modparam(t, p + 1) {
                Some((c, v, q)) => Ok(
                    (
                        modifier(
                            lhs,
                            op,
                            Some(ModifierParam::Compare(CompareExpr { op: c, val: Box::new(v) })),
                        ),
                        q,
                    ),
                ),
                None => Ok((modifier(lhs, op, None), p + 1)),
            }
        },
        Token::Punct(Punct::Cmp(c)) => match parse_atom(t, p + 1) {
            Some((v, q)) => Ok(
                (
                    Expr::SuccessCheck {
                        lhs: Box::new(lhs),
                        compare_expr: CompareExpr { op: *c, val: Box::new(v) },
                    },
                    q,
                ),
            ),
            None => Err(lhs),
        },
        _ => Err(lhs),
    }
}

fn parse_suffixes(t: &Vec<Token>, p: usize, lhs: Expr) -> (r: (Expr, usize))
    requires
        p <= t@.len(),
    ensures
        p_suffixes(tok_views(t@), p as int, expr_view(lhs)) == (expr_view(r.0), r.1 as int),
        p <= r.1 <= t@.len(),
    decreases t@.len() - p, 4nat,
{
    match parse_suffix(t, p, lhs) {
        Ok((e, q)) => parse_suffixes(t, q, e),
        Err(back) => (back, p),
    }
}

fn parse_postfix(t: &Vec<Token>, p: usize) -> (r: Option<(Expr, usize)>)
    requires
        p <= t@.len(),
    ensures
        r matches Some((e, q)) ==> p_postfix(tok_views(t@), p as int) == Some(
            (expr_view(e), q as int),
        ) && p < q <= t@.len(),
        r is None ==> p_postfix(tok_views(t@), p as int) is None,
    decreases t@.len() - p, 5nat,
{
    match parse_primary(t, p) {
        Some((e, q)) => Some(parse_suffixes(t, q, e)),
        None => None,
    }
}

fn parse_unary(t: &Vec<Token>, p: usize) -> (r: Option<(Expr, usize)>)
    requires
        p <= t@.len(),
    ensures
        r matches Some((e, q)) ==> p_unary(tok_views(t@), p as int) == Some((expr_view(e), q as int))
            && p < q <= t@.len(),
        r is None ==> p_unary(tok_views(t@), p as int) is None,
    decreases t@.len() - p, 6nat,
{
    if is_punct(t, p, Punct::Minus) {
        let zero = Expr::Number(Rational::integer(0));
        assert(expr_view(zero) == ExprView::Number((0, 1)));
        match parse_unary(t, p + 1) {
            Some((e, q)) => Some(
                (
                    Expr::Binary {
                        lhs: Box::new(zero),
                        op: BinOp::Sub,
                        rhs: Box::new(e),
                    },
                    q,
                ),
            ),
            None => None,
        }
    } else if is_punct(t, p, Punct::Plus) {
        parse_unary(t, p + 1)
    } else {
        parse_postfix(t, p)
    }
}

fn mul_op(t: &Vec<Token>, p: usize) -> (r: Option<BinOp>)
    ensures
        r == mul_op_at(tok_views(t@), p as int),
        r is Some ==> p < t@.len(),
        t@.len() <= usize::MAX,
{
    if is_punct(t, p, Punct::Star) {
        Some(BinOp::Mul)
    } else if is_punct(t, p, Punct::Slash) {
        Some(BinOp::Div)
    } else if is_punct(t, p, Punct::DoubleSlash) {
        Some(BinOp::Idiv)
    } else if is_punct(t, p, Punct::Percent) {
        Some(BinOp::Mod)
    } else {
        None
    }
}

fn add_op(t: &Vec<Token>, p: usize) -> (r: Option<BinOp>)
    ensures
        r == add_op_at(tok_views(t@), p as int),
        r is Some ==> p < t@.len(),
        t@.len() <= usize::MAX,
{
    if is_punct(t, p, Punct::Plus) {
        Some(BinOp::Add)
    } else if is_punct(t, p, Punct::Minus) {
        Some(BinOp::Sub)
    } else {
        None
    }
}

fn parse_product_rest(t: &Vec<Token>, p: usize, lhs: Expr) -> (r: Option<(Expr, usize)>)
    requires
        p <= t@.len(),
    ensures
        r matches Some((e, q)) ==> p_product_rest(tok_views(t@), p as int, expr_view(lhs)) == Some(
            (expr_view(e), q as int),
        ) && p <= q <= t@.len(),
        r is None ==> p_product_rest(tok_views(t@), p as int, expr_view(lhs)) is None,
    decreases t@.len() - p, 0nat,
{
    match mul_op(t, p) {
        Some(op) => match parse_unary(t, p + 1) {
            Some((r, q)) => parse_product_rest(
                t,
                q,
                Expr::Binary { lhs: Box::new(lhs), op, rhs: Box::new(r) },
            ),
            None => None,
        },
        None => Some((lhs, p)),
    }
}

fn parse_product(t: &Vec<Token>, p: usize) -> (r: Option<(Expr, usize)>)
    requires
        p <= t@.len(),
    ensures
        r matches Some((e, q)) ==> p_product(tok_views(t@), p as int) == Some(
            (expr_view(e), q as int),
        ) && p < q <= t@.len(),
        r is None ==> p_product(tok_views(t@), p as int) is None,
    decreases t@.len() - p, 8nat,
{
    match parse_unary(t, p) {
        Some((e, q)) => parse_product_rest(t, q, e),
        None => None,
    }
}

fn parse_sum_rest(t: &Vec<Token>, p: usize, lhs: Expr) -> (r: Option<(Expr, usize)>)
    requires
        p <= t@.len(),
    ensures
        r matches Some((e, q)) ==> p_sum_rest(tok_views(t@), p as int, expr_view(lhs)) == Some(
            (expr_view(e), q as int),
        ) && p <= q <= t@.len(),
        r is None ==> p_sum_rest(tok_views(t@), p as int, expr_view(lhs)) is None,
    decreases t@.len() - p, 0nat,
{
    match add_op(t, p) {
        Some(op) => match parse_product(t, p + 1) {
            Some((r, q)) => parse_sum_rest(
                t,
                q,
                Expr::Binary { lhs: Box::new(lhs), op, rhs: Box::new(r) },
            ),
            None => None,
        },
        None => Some((lhs, p)),
    }
}

fn parse_sum(t: &Vec<Token>, p: usize) -> (r: Option<(Expr, usize)>)
    requires
        p <= t@.len(),
    ensures
        r matches Some((e, q)) ==> p_sum(tok_views(t@), p as int) == Some((expr_view(e), q as int))
            && p < q <= t@.len(),
        r is None ==> p_sum(tok_views(t@), p as int) is None,
    decreases t@.len() - p, 10nat,
{
    match parse_product(t, p) {
        Some((e, q)) => parse_sum_rest(t, q, e),
        None => None,
    }
}

/// Malformed input text.
#[derive(Debug, PartialEq)]
pub struct SyntaxError {
    pub message: String,
}

/// Parses dice notation into an expression tree.
pub fn parse_dice(input: &str) -> (r: Result<Expr, SyntaxError>)
    ensures
        r matches Ok(e) ==> parse_spec(input.spec_bytes()) == Some(expr_view(e)),
        r is Err <==> parse_spec(input.spec_bytes()) is None,
{
    let bytes = input.as_bytes();
    let tokens = match tokenize(bytes) {
        Some(t) => t,
        None => {
            return Err(SyntaxError { message: String::from_str("Unrecognised character.") });
        },
    };
    match parse_sum(&tokens, 0) {
        Some((e, q)) => {
            if q == tokens.len() {
                Ok(e)
            } else {
                Err(SyntaxError { message: String::from_str("Unexpected input after the expression.") })
            }
        },
        None => Err(SyntaxError { message: String::from_str("Incomplete or malformed expression.") }),
    }
}

} // verus!
