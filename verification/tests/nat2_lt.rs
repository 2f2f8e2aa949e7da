use reify_reflect::const_reify::{reify_nat2, Nat2Callback};

struct Lt2;
impl Nat2Callback<bool> for Lt2 {
    fn call<const A: u64, const B: u64>(&self) -> bool {
        A < B
    }
}

#[test]
fn reify_nat2_lt() {
    assert!(reify_nat2(3, 5, &Lt2));
    assert!(!reify_nat2(5, 3, &Lt2));
    assert!(!reify_nat2(5, 5, &Lt2));
}

