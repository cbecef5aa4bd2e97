use sunscatter::colony::dyson_swarm::is_statite_capable;
use sunscatter::text::{join_str, str_eq, u64_to_decimal};

#[test]
fn decimal_notation() {
    assert_eq!(u64_to_decimal(0), "0");
    assert_eq!(u64_to_decimal(7), "7");
    assert_eq!(u64_to_decimal(10), "10");
    assert_eq!(u64_to_decimal(1234567890), "1234567890");
    assert_eq!(u64_to_decimal(u64::MAX), u64::MAX.to_string());
    assert_eq!(join_str("ab", "cd"), "abcd");
    assert!(str_eq("Mars", "Mars"));
    assert!(!str_eq("Mars", "mars"));
}

#[test]
fn statite_threshold() {
    assert!(!is_statite_capable(0));
    assert!(!is_statite_capable(7));
    assert!(is_statite_capable(8));
    assert!(is_statite_capable(u32::MAX));
    for tier in 0..40u32 {
        let film = 3.0 * 0.5_f64.powf(tier as f64 / 5.0);
        let beta = 1.53 / (film + 0.5);
        assert_eq!(is_statite_capable(tier), beta >= 1.0, "tier {}", tier);
    }
}
