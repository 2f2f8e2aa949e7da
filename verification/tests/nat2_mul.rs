use reify_reflect::const_reify::{reify_nat2, Nat2Callback};

struct Mul2;
impl Nat2Callback<u64> for Mul2 {
    fn call<const A: u64, const B: u64>(&self) -> u64 {
        A * B
    }
}

#[test]
fn reify_nat2_mul() {
    assert_eq!(reify_nat2(6, 7, &Mul2), 42);
    assert_eq!(reify_nat2(0, 255, &Mul2), 0);
}

