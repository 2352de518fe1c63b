use enerby_dev::github_stats::{format_loc, get_github_stats};

#[test]
fn test_format_loc() {
    assert_eq!(format_loc(1000), "1,000");
    assert_eq!(format_loc(42847), "42,847");
    assert_eq!(format_loc(1234567), "1,234,567");
    assert_eq!(format_loc(100), "100");
}

#[test]
fn format_loc_edges() {
    assert_eq!(format_loc(0), "0");
    assert_eq!(format_loc(999), "999");
    assert_eq!(format_loc(100000), "100,000");
    assert_eq!(format_loc(u64::MAX), "18,446,744,073,709,551,615");
}

#[test]
fn test_get_github_stats() {
    let stats = get_github_stats();
    assert!(stats.total_loc > 0);
    assert!(!stats.repos.is_empty());
    assert_eq!(stats.total_loc, 35_847);
    assert_eq!(stats.repos.len(), 4);
}
