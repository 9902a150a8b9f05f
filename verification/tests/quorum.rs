use suraft::raft_core::balancer::Balancer;
use suraft::raft_core::progress::majority_true;

fn flags(bits: u32, n: usize) -> Vec<bool> {
    (0..n).map(|i| bits & (1 << i) != 0).collect()
}

#[test]
fn majorities_of_the_same_members_intersect() {
    for n in 1..=5usize {
        for x in 0..(1u32 << n) {
            for y in 0..(1u32 << n) {
                let a = flags(x, n);
                let b = flags(y, n);
                if majority_true(&a) && majority_true(&b) {
                    assert!((0..n).any(|i| a[i] && b[i]), "{:?} {:?}", a, b);
                }
            }
        }
    }
}

#[test]
fn majority_needs_more_than_half() {
    assert!(!majority_true(&vec![]));
    assert!(majority_true(&vec![true]));
    assert!(!majority_true(&vec![true, false]));
    assert!(majority_true(&vec![true, true, false]));
    assert!(!majority_true(&vec![true, false, false, true]));
}

#[test]
fn balancer_share_stays_at_most_half() {
    for total in [2u64, 3, 10, 17, 10_000] {
        let mut b = Balancer::new(total);
        for step in 0..200 {
            if step % 3 == 0 {
                b.increase_notification();
                assert!(b.api_message() >= 1);
            } else {
                b.increase_api_message();
            }
            assert!(b.api_message() <= total / 2, "{} {}", total, b.api_message());
        }
    }
}
