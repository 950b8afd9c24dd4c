use neocalc_core::{evaluate, format_number, map_input_token, should_auto_paren, Context, EngineError, Number};
use num_bigint::BigInt;
use num_rational::BigRational;

fn eval_new(expr: &str) -> Result<Number, EngineError> {
    let mut context = Context::new();
    evaluate(expr, &mut context)
}

fn expect_int(expr: &str, expected: i64) {
    match eval_new(expr) {
        Ok(Number::Integer(i)) => assert_eq!(i, BigInt::from(expected), "{}", expr),
        other => panic!("Expected Integer for {}, got {:?}", expr, other),
    }
}

fn expect_rat(expr: &str, num: i64, den: i64) {
    match eval_new(expr) {
        Ok(Number::Rational(r)) => {
            assert_eq!(r, BigRational::new(BigInt::from(num), BigInt::from(den)), "{}", expr)
        }
        other => panic!("Expected Rational for {}, got {:?}", expr, other),
    }
}

fn expect_float(expr: &str, expected: f64) {
    match eval_new(expr) {
        Ok(Number::Float(f)) => assert_eq!(f.re, expected, "{}", expr),
        other => panic!("Expected Float for {}, got {:?}", expr, other),
    }
}

#[test]
fn test_power_right_associative() {
    // 2^3^4 must evaluate as 2^(3^4) = 2^81, not (2^3)^4 = 4096.
    let expected = BigInt::from(2u32).pow(81);
    match eval_new("2^3^4") {
        Ok(Number::Integer(i)) => assert_eq!(i, expected),
        other => panic!("Expected Integer, got {:?}", other),
    }
    match eval_new("2^(3^4)") {
        Ok(Number::Integer(i)) => assert_eq!(i, expected),
        other => panic!("Expected Integer, got {:?}", other),
    }
    expect_int("(2^3)^4", 4096);
}

#[test]
fn test_power_negative_exponent() {
    expect_rat("2^(0-2)", 1, 4);
    match eval_new("0^(0-2)") {
        Ok(Number::Float(f)) => assert!(f.re.is_infinite() && f.re > 0.0),
        other => panic!("Expected infinite Float, got {:?}", other),
    }
}

#[test]
fn test_division_by_zero_yields_float() {
    match eval_new("1/0") {
        Ok(Number::Float(f)) => assert_eq!(f.re, 1.0f64 / 0.0),
        other => panic!("Expected Float infinity, got {:?}", other),
    }
    match eval_new("(0-1)/0") {
        Ok(Number::Float(f)) => assert!(f.re.is_infinite() && f.re < 0.0),
        other => panic!("Expected negative infinity, got {:?}", other),
    }
    match eval_new("(1/2)/0") {
        Ok(Number::Float(f)) => assert!(f.re.is_infinite()),
        other => panic!("Expected Float infinity, got {:?}", other),
    }
    // the remainder follows the same no-error policy
    match eval_new("5 % 0") {
        Ok(Number::Float(f)) => assert!(f.re.is_nan()),
        other => panic!("Expected Float NaN, got {:?}", other),
    }
}

#[test]
fn test_factorial_domain() {
    expect_int("3!", 6);
    expect_int("0!", 1);
    match eval_new("(0-1)!") {
        Err(EngineError::DomainError(_)) => (),
        other => panic!("Expected DomainError, got {:?}", other),
    }
    match eval_new("0.5!") {
        Err(EngineError::DomainError(_)) => (),
        other => panic!("Expected DomainError, got {:?}", other),
    }
}

#[test]
fn test_implicit_multiplication() {
    expect_int("2(3+4)", 14);
    let mut context = Context::new();
    evaluate("x = 3", &mut context).unwrap();
    match evaluate("2x", &mut context) {
        Ok(Number::Integer(i)) => assert_eq!(i, BigInt::from(6)),
        other => panic!("Expected Integer, got {:?}", other),
    }
}

#[test]
fn test_number_literals() {
    expect_int("0xFF", 255);
    expect_int("0b101", 5);
    expect_float("1.5e2", 150.0);
    expect_float("1.5 * 2", 3.0);
    // "2e" is an integer followed by the identifier `e`
    match eval_new("2e") {
        Err(EngineError::UndefinedVariable(name)) => assert_eq!(name, "e"),
        other => panic!("Expected UndefinedVariable, got {:?}", other),
    }
}

#[test]
fn test_truncated_remainder() {
    expect_int("7 % 3", 1);
    expect_int("(0-7) % 3", -1);
}

#[test]
fn test_unary_negation() {
    expect_int("-5", -5);
    expect_int("-(2+3)", -5);
    expect_rat("-(1/2)", -1, 2);
}

#[test]
fn test_complex_results() {
    match eval_new("sqrt(0-4)") {
        Ok(Number::Complex(c)) => {
            assert!(c.re.abs() < 1e-9);
            assert!((c.im - 2.0).abs() < 1e-9);
        }
        other => panic!("Expected Complex, got {:?}", other),
    }
    match eval_new("im(sqrt(0-4))") {
        Ok(Number::Float(f)) => assert!((f.re - 2.0).abs() < 1e-9),
        other => panic!("Expected Float, got {:?}", other),
    }
    match eval_new("sqrt(0-1) % sqrt(0-1)") {
        Ok(Number::Float(f)) => assert!(f.re.is_nan()),
        other => panic!("Expected Float NaN, got {:?}", other),
    }
    match eval_new("conj(sqrt(0-4))") {
        Ok(Number::Complex(c)) => assert!((c.im + 2.0).abs() < 1e-9),
        other => panic!("Expected Complex, got {:?}", other),
    }
}

#[test]
fn test_trigonometry() {
    match eval_new("cos(0)") {
        Ok(Number::Complex(c)) => assert_eq!(c.re, 1.0),
        other => panic!("Expected Complex, got {:?}", other),
    }
    match eval_new("sin(0)") {
        Ok(Number::Complex(c)) => assert_eq!(c.re, 0.0),
        other => panic!("Expected Complex, got {:?}", other),
    }
    match eval_new("tanh(0)") {
        Ok(Number::Complex(c)) => assert_eq!(c.re, 0.0),
        other => panic!("Expected Complex, got {:?}", other),
    }
    match eval_new("ln(1)") {
        Ok(Number::Complex(c)) => assert_eq!(c.re, 0.0),
        other => panic!("Expected Complex, got {:?}", other),
    }
}

#[test]
fn test_abs_kinds() {
    expect_int("abs(0-5)", 5);
    expect_rat("abs(1/2 - 1)", 1, 2);
    expect_float("abs(0 - 1.5)", 1.5);
    match eval_new("abs(sqrt(0-4))") {
        Ok(Number::Float(f)) => assert!((f.re - 2.0).abs() < 1e-9),
        other => panic!("Expected Float, got {:?}", other),
    }
}

#[test]
fn test_logic_primitives() {
    expect_int("and(1, 2)", 1);
    expect_int("and(1, 0)", 0);
    expect_int("or(0, 0)", 0);
    expect_int("or(0, 7)", 1);
    expect_int("not(0)", 1);
    expect_int("not(3)", 0);
    expect_int("xor(1, 1, 1)", 1);
    expect_int("xor(1, 1)", 0);
    expect_int("if(1, 2, 3)", 2);
    expect_int("if(0, 2, 3)", 3);
    expect_int("TRUE()", 1);
    expect_int("FALSE()", 0);
}

#[test]
fn test_bitwise_primitives() {
    expect_int("bor(4, 1)", 5);
    expect_int("bxor(5, 3)", 6);
    expect_int("bnot(0)", -1);
    expect_int("lsh(1, 10)", 1024);
    expect_int("rsh(7, 1)", 3);
    // the arithmetic shift rounds toward negative infinity
    expect_int("rsh(0-7, 1)", -4);
    expect_int("rol(1, 1)", 2);
    expect_int("ror(2, 1)", 1);
    match eval_new("band(1.5, 1)") {
        Err(EngineError::TypeMismatch(_, _)) => (),
        other => panic!("Expected TypeMismatch, got {:?}", other),
    }
}

#[test]
fn test_statistics_primitives() {
    expect_int("median(3, 1, 2)", 2);
    expect_rat("median(1, 2, 3, 4)", 5, 2);
    expect_rat("var(1, 2, 3)", 1, 1);
    match eval_new("std(1, 2, 3)") {
        Ok(Number::Complex(c)) => assert_eq!(c.re, 1.0),
        other => panic!("Expected Complex, got {:?}", other),
    }
    match eval_new("mean()") {
        Err(EngineError::ArgumentMismatch(name, 1)) => assert_eq!(name, "mean"),
        other => panic!("Expected ArgumentMismatch, got {:?}", other),
    }
    match eval_new("median(sqrt(0-1))") {
        Err(EngineError::TypeMismatch(_, _)) => (),
        other => panic!("Expected TypeMismatch, got {:?}", other),
    }
}

#[test]
fn test_parser_errors() {
    for bad in ["1 +", "(1", ")", "2 @", "1 + + 2", "f(x, 2) = x"] {
        match eval_new(bad) {
            Err(EngineError::ParserError(_)) => (),
            other => panic!("Expected ParserError for {:?}, got {:?}", bad, other),
        }
    }
}

#[test]
fn test_arity_mismatch() {
    let mut context = Context::new();
    evaluate("h(x) = x", &mut context).unwrap();
    match evaluate("h(1, 2)", &mut context) {
        Err(EngineError::ArgumentMismatch(name, 1)) => assert_eq!(name, "h"),
        other => panic!("Expected ArgumentMismatch, got {:?}", other),
    }
}

#[test]
fn test_format_of_floats_and_complexes() {
    match eval_new("1 + 0.5") {
        Ok(n) => assert_eq!(format_number(n), "1.5"),
        other => panic!("unexpected {:?}", other),
    }
    match eval_new("2.0") {
        Ok(n) => assert_eq!(format_number(n), "2"),
        other => panic!("unexpected {:?}", other),
    }
    match eval_new("sqrt(0-4)") {
        Ok(n) => assert_eq!(format_number(n), "2i"),
        other => panic!("unexpected {:?}", other),
    }
    match eval_new("1 + sqrt(0-4)") {
        Ok(n) => assert_eq!(format_number(n), "1 + 2i"),
        other => panic!("unexpected {:?}", other),
    }
    match eval_new("0 - 42") {
        Ok(n) => assert_eq!(format_number(n), "-42"),
        other => panic!("unexpected {:?}", other),
    }
}

#[test]
fn test_input_mapping_helpers() {
    assert_eq!(map_input_token("÷"), "/");
    assert_eq!(map_input_token("×"), "*");
    assert_eq!(map_input_token("−"), "-");
    assert_eq!(map_input_token("π"), "pi");
    assert_eq!(map_input_token("√"), "sqrt(");
    assert_eq!(map_input_token("7"), "7");
    assert!(should_auto_paren("sin"));
    assert!(should_auto_paren("sqrt"));
    assert!(!should_auto_paren("pi"));
    assert!(!should_auto_paren(""));
}

#[test]
fn test_unknown_locale_key_falls_back() {
    let loc = neocalc_core::init_locale("fr");
    assert_eq!(neocalc_core::t_in(loc, "some-unknown-key"), "some-unknown-key");
}

#[test]
fn test_financial_primitives() {
    // zero-rate branches are exact
    match eval_new("fv(0, 2, 100, 50)") {
        Ok(Number::Complex(c)) => assert_eq!(c.re, -200.0),
        other => panic!("Expected Complex, got {:?}", other),
    }
    match eval_new("pv(0, 3, 90)") {
        Ok(Number::Complex(c)) => assert_eq!(c.re, -90.0),
        other => panic!("Expected Complex, got {:?}", other),
    }
    match eval_new("pmt(0, 4, 100, 100)") {
        Ok(Number::Complex(c)) => assert_eq!(c.re, -50.0),
        other => panic!("Expected Complex, got {:?}", other),
    }
    match eval_new("nper(0, 10, 0-100)") {
        Ok(Number::Complex(c)) => assert_eq!(c.re, 10.0),
        other => panic!("Expected Complex, got {:?}", other),
    }
    match eval_new("npv(0, 100, 50)") {
        Ok(Number::Complex(c)) => assert_eq!(c.re, 150.0),
        other => panic!("Expected Complex, got {:?}", other),
    }
    // a compound-rate future value
    match eval_new("fv(1, 1, 1)") {
        Ok(Number::Complex(c)) => assert!((c.re + 2.0).abs() < 1e-9),
        other => panic!("Expected Complex, got {:?}", other),
    }
    // the rate solver settles a balanced annuity at zero immediately
    match eval_new("rate(2, 50, 0-100, 0, 0, 0)") {
        Ok(Number::Complex(c)) => assert_eq!(c.re, 0.0),
        other => panic!("Expected Complex, got {:?}", other),
    }
    // a balanced zero flow ends the internal-rate search at its first guess
    match eval_new("irr(0)") {
        Ok(Number::Complex(c)) => assert_eq!(c.re, 0.1),
        other => panic!("Expected Complex, got {:?}", other),
    }
    match eval_new("fv(0, 1)") {
        Err(EngineError::ArgumentMismatch(name, 3)) => assert_eq!(name, "fv"),
        other => panic!("Expected ArgumentMismatch, got {:?}", other),
    }
}

#[test]
fn test_function_redefinition() {
    let mut context = Context::new();
    evaluate("f(x) = x + 1", &mut context).unwrap();
    evaluate("f(x) = x * 10", &mut context).unwrap();
    match evaluate("f(4)", &mut context) {
        Ok(Number::Integer(i)) => assert_eq!(i, BigInt::from(40)),
        other => panic!("Expected Integer, got {:?}", other),
    }
    // a definition evaluates to the neutral zero
    match evaluate("g() = 7", &mut context) {
        Ok(Number::Integer(i)) => assert_eq!(i, BigInt::from(0)),
        other => panic!("Expected Integer 0, got {:?}", other),
    }
}
