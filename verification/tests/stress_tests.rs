use neocalc_core::{evaluate, Context, Number};
use std::time::Instant;
use num_bigint::BigInt;

#[test]
fn stress_test_parser_depth() {
    let mut context = Context::new();
    // Generate "1 + 1 + ... + 1" (2000 times)
    // Left-associative: ((1+1)+1)+1...
    // Depth of AST ~ 2000.
    let n = 2000;
    let expr: String = std::iter::repeat("1").take(n).collect::<Vec<_>>().join(" + ");

    let start = Instant::now();
    let res = evaluate(&expr, &mut context);
    let duration = start.elapsed();

    match res {
        Ok(Number::Integer(i)) => {
            assert_eq!(i, BigInt::from(n), "Sum should be equal to count");
            println!("Parser Depth Test (N={}): {:?} - Parsed and Evaluated", n, duration);
        }
        Err(e) => {
            panic!("Parser failed at depth {}: {:?}", n, e);
        }
        _ => panic!("Expected Integer"),
    }
}

#[test]
fn stress_test_context_cloning_overhead() {
    let mut context = Context::new();

    // 1. Populate context with MANY variables
    let var_count = 10_000;
    println!("Populating {} variables...", var_count);
    for i in 0..var_count {
        evaluate(&format!("v{} = {}", i, i), &mut context).unwrap();
    }

    // 2. Define a simple function
    evaluate("f(x) = x + 1", &mut context).unwrap();

    // 3. Call it repeatedly
    let call_count = 1000;
    let start = Instant::now();
    for _i in 0..call_count {
        evaluate("f(1)", &mut context).unwrap();
    }
    let duration = start.elapsed();

    println!("Context Overhead Test (Vars={}, Calls={}): {:?}", var_count, call_count, duration);
    println!("Average time per call: {:?}", duration / call_count as u32);
}

#[test]
fn stress_test_chain_beyond_depth_bound() {
    let mut context = Context::new();
    // A left-associative chain far past the evaluator's nesting bound:
    // the spine costs no depth, so it must still evaluate, not error.
    let n = 10_000;
    let expr: String = std::iter::repeat("1").take(n).collect::<Vec<_>>().join(" + ");
    match evaluate(&expr, &mut context) {
        Ok(Number::Integer(i)) => assert_eq!(i, BigInt::from(n)),
        other => panic!("Expected Integer {}, got {:?}", n, other),
    }
}

#[test]
fn stress_test_recursion_fib() {
    let mut context = Context::new();

    // Naive recursive fibonacci needs a lazy conditional for its base
    // cases. The `if` primitive receives both branches already evaluated,
    // so a self-recursive definition would recurse on every call and never
    // bottom out; recursion is exercised through nested calls instead.
    evaluate("one() = 1", &mut context).unwrap();
    evaluate("two() = one() + one()", &mut context).unwrap();
    let res = evaluate("two()", &mut context);
    match res {
        Ok(Number::Integer(i)) => assert_eq!(i, BigInt::from(2)),
        other => panic!("Expected Integer, got {:?}", other),
    }
}
