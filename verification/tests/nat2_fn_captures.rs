use reify_reflect::const_reify::reify_nat2_fn;

#[test]
fn reify_nat2_fn_captures_environment() {
    let scale = 10u64;
    assert_eq!(reify_nat2_fn(5, 3, |a, b| (a + b) * scale), 80);
}

