use dice_roller::config::{
    default_api_port, default_log_level, default_max_database_connections, default_sqlite_db_url,
};
use dice_roller::grammar::{parse_dice, Expr};
use dice_roller::number::Rational;
use dice_roller::typecheck::{top_n_preserve_order, typecheck_expr, DiceItem, Type};
use dice_roller::{
    check_constant_integer, check_valid_dice_expression, is_constant_number,
    ConstantIntegerCheckResult, ConstantNumberCheckResult, ResultWithReason,
};

fn q(n: i64, d: i64) -> Rational {
    Rational::new(n, d).unwrap()
}

fn analyse(input: &str) -> Type {
    typecheck_expr(&parse_dice(input).expect("input should parse"))
}

fn is_invalid(t: &Type) -> bool {
    matches!(t, Type::Invalid(_))
}

fn raw(min_count: i64, side: i64) -> Type {
    Type::raw_dice_pool(DiceItem { min_count, side })
}

fn limitable(min_count: i64, side: i64) -> Type {
    Type::limitable_dice_pool(DiceItem { min_count, side })
}

fn ints(v: &[i64]) -> Vec<Rational> {
    v.iter().map(|x| q(*x, 1)).collect()
}

#[test]
fn rationals_are_kept_in_lowest_terms() {
    let x = q(6, -4);
    assert_eq!(x.numer(), -3);
    assert_eq!(x.denom(), 2);
    assert_eq!(q(0, 7), q(0, 1));
    assert!(Rational::new(1, 0).is_none());
}

#[test]
fn repeated_analysis_gives_the_same_result() {
    for input in ["3d20kh2!!<=4 + 1d6", "max([1, 2, 3], 2)", "10 / 0", "[1, 2d6] * 3"] {
        let first = analyse(input);
        let second = analyse(input);
        assert_eq!(first, second);
    }
}

#[test]
fn constant_folding_is_exact() {
    assert_eq!(analyse("6 * 7"), Type::constant(q(42, 1)));
    assert_eq!(analyse("101 // 3"), Type::constant(q(33, 1)));
    assert_eq!(analyse("-5 // 3"), Type::constant(q(-1, 1)));
    assert_eq!(analyse("1/3 + 1/6"), Type::constant(q(1, 2)));
    assert_eq!(analyse("0.1 + 0.2"), Type::constant(q(3, 10)));
    assert_eq!(analyse("7 / 2"), Type::constant(q(7, 2)));
    assert_eq!(analyse("1.50"), Type::constant(q(3, 2)));
}

#[test]
fn integer_division_and_modulo_round_toward_zero() {
    assert_eq!(analyse("-7 % 3"), Type::constant(q(-1, 1)));
    assert_eq!(analyse("7 % -3"), Type::constant(q(1, 1)));
    assert_eq!(analyse("7 // -2"), Type::constant(q(-3, 1)));
    assert_eq!(analyse("-7 // 2"), Type::constant(q(-3, 1)));
}

#[test]
fn rounding_functions() {
    assert_eq!(analyse("round(2.5)"), Type::constant(q(3, 1)));
    assert_eq!(analyse("round(-2.5)"), Type::constant(q(-3, 1)));
    assert_eq!(analyse("round(1.4)"), Type::constant(q(1, 1)));
    assert_eq!(analyse("floor(-1.5)"), Type::constant(q(-2, 1)));
    assert_eq!(analyse("ceil(-1.5)"), Type::constant(q(-1, 1)));
    assert_eq!(analyse("abs(-1.5)"), Type::constant(q(3, 2)));
    assert_eq!(analyse("floor(2)"), Type::constant(q(2, 1)));
    assert!(is_invalid(&analyse("abs(1, 2)")));
}

#[test]
fn arithmetic_out_of_range_is_invalid() {
    assert_eq!(
        analyse("922337203685477580 * 10 + 7"),
        Type::constant(q(9223372036854775807, 1))
    );
    assert!(is_invalid(&analyse("922337203685477580 * 10 + 8")));
    assert!(is_invalid(&analyse("922337203685477580 * 100")));
    assert!(is_invalid(&analyse("[1d6] * 922337203685477580 * 100")));
}

#[test]
fn number_literals_are_limited_to_eighteen_digits() {
    assert_eq!(
        analyse("123456789012345678"),
        Type::constant(q(123456789012345678, 1))
    );
    assert!(parse_dice("1234567890123456789").is_err());
    assert!(parse_dice("0.000000000000000001").is_err());
    assert_eq!(
        analyse("0.00000000000000001"),
        Type::constant(q(1, 100000000000000000))
    );
}

#[test]
fn malformed_text_is_a_syntax_error() {
    for input in ["", "1 +", "[1, 2", "(1", "2d20 #", "2d20r", "max(1,", "1 2", "2d20ro", "3d6<"] {
        assert!(parse_dice(input).is_err(), "{input} should not parse");
    }
}

#[test]
fn whitespace_between_tokens_is_ignored() {
    assert_eq!(analyse(" 2 d 20 "), raw(2, 20));
    assert_eq!(analyse("max( 1 ,\t2 )"), Type::constant(q(2, 1)));
}

#[test]
fn dice_pool_shape() {
    assert_eq!(analyse("6d6"), raw(6, 6));
    assert_eq!(analyse("2d20kh1"), raw(1, 20));
    assert_eq!(analyse("d20"), raw(1, 20));
}

#[test]
fn invalid_subexpressions_propagate() {
    for input in [
        "(10/0)d6",
        "max(1, 10/0)",
        "[1, 10/0]",
        "2d20kh(1/0)",
        "2d20<(1/0)",
        "sum(1, 2d20kh0)",
        "rpdice(1/0)",
        "1 + (2d6 - [1])",
    ] {
        assert!(is_invalid(&analyse(input)), "{input} should be invalid");
    }
}

#[test]
fn list_arithmetic() {
    assert_eq!(analyse("[1,2]*2"), Type::const_list(ints(&[1, 2, 1, 2])));
    assert_eq!(analyse("[1,2,3d6]+[4,5]"), Type::var_list(5));
    assert_eq!(analyse("[] * 100000000000000000"), Type::const_list(vec![]));
    assert_eq!(analyse("[1, 2] * 0"), Type::const_list(vec![]));
}

#[test]
fn boundary_inputs_are_rejected() {
    for input in ["0d6", "2d20kh0", "max()", "[1,[2,3]]", "1d1", "3d20dh3", "2d20kh3"] {
        assert!(is_invalid(&analyse(input)), "{input} should be invalid");
    }
}

#[test]
fn modifier_order_decides_the_pool_kind() {
    assert_eq!(analyse("3d20!!<3kh2"), raw(2, 20));
    assert_eq!(analyse("3d20kh2!!<3"), limitable(2, 20));
    assert_eq!(analyse("3d20!!l2"), raw(3, 20));
    assert!(is_invalid(&analyse("3d20!!l0")));
    assert!(is_invalid(&analyse("3d20!l2")));
    assert_eq!(analyse("2d20!3"), raw(2, 20));
}

#[test]
fn top_n_keeps_input_order() {
    assert_eq!(analyse("max([1,2,3,4,5],4)"), Type::const_list(ints(&[2, 3, 4, 5])));
    assert_eq!(analyse("min([5,3,1,4,2],2)"), Type::const_list(ints(&[1, 2])));
}

#[test]
fn top_n_breaks_ties_by_position() {
    let data = ints(&[5, 1, 5, 2]);
    assert_eq!(top_n_preserve_order(&data, 2, true), ints(&[5, 5]));
    assert_eq!(top_n_preserve_order(&data, 3, true), ints(&[5, 5, 2]));
    assert_eq!(top_n_preserve_order(&data, 2, false), ints(&[1, 2]));
    assert_eq!(top_n_preserve_order(&data, 0, true), ints(&[]));
    assert_eq!(top_n_preserve_order(&data, 9, false), data);
    let halves = vec![q(1, 2), q(1, 3), q(1, 2)];
    assert_eq!(top_n_preserve_order(&halves, 1, true), vec![q(1, 2)]);
    assert_eq!(top_n_preserve_order(&halves, 2, false), vec![q(1, 2), q(1, 3)]);
}

#[test]
fn function_names_are_kept() {
    match parse_dice("rpdice(1)").unwrap() {
        Expr::Call { func_name, args } => {
            assert_eq!(func_name, "rpdice");
            assert_eq!(args.len(), 1);
        }
        other => panic!("unexpected {other:?}"),
    }
    match parse_dice("foo(1)").unwrap() {
        Expr::Call { func_name, .. } => assert_eq!(func_name, "foo"),
        other => panic!("unexpected {other:?}"),
    }
    assert!(is_invalid(&analyse("foo(1)")));
}

#[test]
fn constant_number_check() {
    assert_eq!(
        is_constant_number("7/2".to_string()),
        ConstantNumberCheckResult::Constant(q(7, 2))
    );
    assert!(matches!(
        is_constant_number("1d6".to_string()),
        ConstantNumberCheckResult::NotConstant(_)
    ));
    assert!(matches!(
        is_constant_number("[1]".to_string()),
        ConstantNumberCheckResult::NotConstant(_)
    ));
}

#[test]
fn constant_integer_check() {
    assert_eq!(
        check_constant_integer("6*7".to_string()),
        ConstantIntegerCheckResult::Constant(q(42, 1))
    );
    assert!(matches!(
        check_constant_integer("7/2".to_string()),
        ConstantIntegerCheckResult::NotConstant(_)
    ));
    assert!(matches!(
        check_constant_integer("10/0".to_string()),
        ConstantIntegerCheckResult::NotConstant(_)
    ));
    match check_constant_integer("1 +".to_string()) {
        ConstantIntegerCheckResult::NotConstant(reason) => {
            assert!(reason.starts_with("Parse error: "))
        }
        other => panic!("unexpected {other:?}"),
    }
}

#[test]
fn valid_dice_expression_check() {
    assert_eq!(
        check_valid_dice_expression("2d20kh1 + 3".to_string()),
        ResultWithReason::True
    );
    assert!(matches!(
        check_valid_dice_expression("0d6".to_string()),
        ResultWithReason::False(_)
    ));
    assert!(matches!(
        check_valid_dice_expression("(".to_string()),
        ResultWithReason::False(_)
    ));
}

#[test]
fn rpdice_passes_values_through() {
    assert_eq!(analyse("rpdice(2d6)"), Type::unknown_var());
    assert_eq!(analyse("rpdice([1, 2], 3)"), Type::const_list(ints(&[1, 2])));
    assert!(is_invalid(&analyse("rpdice(2d6, 1)")));
}

#[test]
fn service_defaults() {
    assert_eq!(default_api_port(), 19156);
    assert_eq!(default_max_database_connections(), 5);
    assert_eq!(default_log_level(), "debug");
    assert_eq!(default_sqlite_db_url(), "sqlite://database.db");
}
