//! Parsing and static analysis of tabletop dice notation.
//!
//! `grammar` turns text such as `3d20kh2!!<=4 + 1d6` into an [`grammar::Expr`]
//! tree; `typecheck` classifies the shape of its result without rolling any
//! dice, folding constant arithmetic exactly on rational numbers. The
//! functions here compose the two for callers that hold plain text.
use vstd::prelude::*;

pub mod config;
pub mod grammar;
pub mod lexer;
pub mod laws;
pub mod number;
pub mod rules;
pub mod typecheck;

use crate::grammar::{parse_dice, parse_spec, ExprView};
use crate::number::{is_int, Rational};
use crate::rules::{typecheck_spec, TypeView};
use crate::typecheck::{typecheck_expr, NumberType, Type};
use vstd::string::StringExecFns;
use vstd::utf8::encode_utf8;

verus! {

/// What the analysis of `text` yields; `None` when it does not parse.
pub open spec fn analyse(text: Seq<char>) -> Option<TypeView> {
    match parse_spec(encode_utf8(text)) {
        Some(e) => Some(typecheck_spec(e)),
        None => None,
    }
}

/// Whether the analysis of `text` is the constant `x`.
pub open spec fn constant_of(text: Seq<char>, x: (int, int)) -> bool {
    analyse(text) == Some(TypeView::Constant(x))
}

/// Outcome of asking whether some text is a constant number.
#[derive(Debug, PartialEq)]
pub enum ConstantNumberCheckResult {
    Constant(Rational),
    NotConstant(String),
}

/// Outcome of asking whether some text is a constant whole number.
#[derive(Debug, PartialEq)]
pub enum ConstantIntegerCheckResult {
    Constant(Rational),
    NotConstant(String),
}

/// A yes, or a no with the reason.
#[derive(Debug, PartialEq)]
pub enum ResultWithReason {
    True,
    False(String),
}

fn parse_error(msg: &String) -> (r: String) {
    String::from_str("Parse error: ").concat(msg.as_str())
}

/// Parses and analyses `input`.
fn analyse_exec(input: &String) -> (r: Result<Type, String>)
    ensures
        r matches Ok(t) ==> analyse(input@) == Some(t@),
        r is Err ==> analyse(input@) is None,
{
    match parse_dice(input.as_str()) {
        Ok(ast) => Ok(typecheck_expr(&ast)),
        Err(e) => Err(parse_error(&e.message)),
    }
}

/// The value of `input` when it is a constant number, else the reason why not.
pub fn is_constant_number(input: String) -> (r: ConstantNumberCheckResult)
    ensures
        r matches ConstantNumberCheckResult::Constant(c) ==> constant_of(input@, c@),
        r is NotConstant ==> !(analyse(input@) matches Some(TypeView::Constant(_))),
{
    match analyse_exec(&input) {
        Err(s) => ConstantNumberCheckResult::NotConstant(s),
        Ok(Type::Invalid(s)) => ConstantNumberCheckResult::NotConstant(s),
        Ok(Type::Number(NumberType::Constant(c))) => ConstantNumberCheckResult::Constant(c),
        Ok(Type::Number(NumberType::Variable(_))) => ConstantNumberCheckResult::NotConstant(
            String::from_str("Not a constant number"),
        ),
        Ok(Type::List(_)) => ConstantNumberCheckResult::NotConstant(
            String::from_str("It's a list, not a number"),
        ),
    }
}

/// The value of `input` when it is a constant whole number, else the reason
/// why not.
pub fn check_constant_integer(input: String) -> (r: ConstantIntegerCheckResult)
    ensures
        r matches ConstantIntegerCheckResult::Constant(c) ==> constant_of(input@, c@) && is_int(
            c@,
        ),
        r is NotConstant ==> !(analyse(input@) matches Some(TypeView::Constant(x)) && is_int(x)),
{
    match analyse_exec(&input) {
        Err(s) => ConstantIntegerCheckResult::NotConstant(s),
        Ok(Type::Invalid(s)) => ConstantIntegerCheckResult::NotConstant(s),
        Ok(Type::Number(NumberType::Constant(c))) => {
            if c.is_integer() {
                ConstantIntegerCheckResult::Constant(c)
            } else {
                ConstantIntegerCheckResult::NotConstant(String::from_str("Not an integer"))
            }
        },
        Ok(Type::Number(NumberType::Variable(_))) => ConstantIntegerCheckResult::NotConstant(
            String::from_str("Not a constant number"),
        ),
        Ok(Type::List(_)) => ConstantIntegerCheckResult::NotConstant(
            String::from_str("It's a list, not a number"),
        ),
    }
}

/// Whether `input` is a well-formed dice expression, else the reason why not.
pub fn check_valid_dice_expression(input: String) -> (r: ResultWithReason)
    ensures
        r is True <==> (analyse(input@) matches Some(t) && !(t is Invalid)),
{
    match analyse_exec(&input) {
        Err(s) => ResultWithReason::False(s),
        Ok(Type::Invalid(s)) => ResultWithReason::False(s),
        Ok(_) => ResultWithReason::True,
    }
}

} // verus!
