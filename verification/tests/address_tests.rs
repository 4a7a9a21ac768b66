use private_ipv6::{
    generate_hex, generate_private_ipv6, generate_private_ipv6_with_values, is_valid_private_ipv6,
};

#[test]
fn test_generate_hex() {
    // Test with max value 255
    let hex = generate_hex(255);
    let value = u16::from_str_radix(&hex, 16).unwrap();
    assert!(value <= 255);

    // Test with max value 65535
    let hex = generate_hex(65535);
    let value = u32::from_str_radix(&hex, 16).unwrap();
    assert!(value <= 65535);

    // Test with max value 0 (edge case)
    let hex = generate_hex(0);
    assert_eq!(hex, "0");

    // Test with max value 1
    let hex = generate_hex(1);
    let value = u16::from_str_radix(&hex, 16).unwrap();
    assert!(value <= 1);
}

#[test]
fn test_generate_private_ipv6() {
    let ipv6 = generate_private_ipv6();

    // Check format
    assert!(is_valid_private_ipv6(&ipv6));

    // Check if starts with fd
    assert!(ipv6.starts_with("fd"));

    // Check if ends with :/64
    assert!(ipv6.ends_with(":/64"));

    // Check if it has 4 groups
    let groups: Vec<&str> = ipv6[0..ipv6.len() - 4].split(':').collect();
    assert_eq!(groups.len(), 4);

    // Generate multiple addresses and ensure they're different (probabilistic test)
    let ipv6_2 = generate_private_ipv6();
    let ipv6_3 = generate_private_ipv6();

    // It's extremely unlikely that 3 random IPv6 addresses would be identical
    assert!(ipv6 != ipv6_2 || ipv6 != ipv6_3 || ipv6_2 != ipv6_3);
}

#[test]
fn test_is_valid_private_ipv6() {
    // Valid addresses
    assert!(is_valid_private_ipv6("fd01:2345:6789:abcd:/64"));
    assert!(is_valid_private_ipv6("fdff:1:2:3:/64"));
    assert!(is_valid_private_ipv6("fdaa:0:0:0:/64"));
    assert!(is_valid_private_ipv6("fdff:ffff:ffff:ffff:/64"));

    // Invalid addresses
    assert!(!is_valid_private_ipv6("fc01:2345:6789:abcd:/64")); // Not starting with fd
    assert!(!is_valid_private_ipv6("fd01:2345:6789:abcd:/48")); // Wrong CIDR
    assert!(!is_valid_private_ipv6("fd01:2345:6789:/64")); // Not enough groups
    assert!(!is_valid_private_ipv6("fd01:2345:6789:abcd:ef01:/64")); // Too many groups
    assert!(!is_valid_private_ipv6("fd01:2345:6789:abcd")); // No CIDR notation
    assert!(!is_valid_private_ipv6("fd01:2345:6789:xyz:/64")); // Invalid hex
    assert!(!is_valid_private_ipv6("gd01:2345:6789:abcd:/64")); // Invalid first character
    assert!(!is_valid_private_ipv6("")); // Empty string
    assert!(!is_valid_private_ipv6("fd01::6789:abcd:/64")); // Contains empty group
    assert!(!is_valid_private_ipv6("fd01:2345:6789:abcd:/64extra")); // Extra text after CIDR
}

#[test]
fn test_generate_private_ipv6_with_values() {
    // Test with minimum values
    let ipv6 = generate_private_ipv6_with_values(0, 0, 0, 0);
    assert_eq!(ipv6, "fd00:0:0:0:/64");
    assert!(is_valid_private_ipv6(&ipv6));

    // Test with maximum values
    let ipv6 = generate_private_ipv6_with_values(255, 65535, 65535, 65535);
    assert_eq!(ipv6, "fdff:ffff:ffff:ffff:/64");
    assert!(is_valid_private_ipv6(&ipv6));

    // Test with mixed values
    let ipv6 = generate_private_ipv6_with_values(10, 256, 4096, 1);
    assert_eq!(ipv6, "fd0a:100:1000:1:/64");
    assert!(is_valid_private_ipv6(&ipv6));
}

#[test]
fn test_output_format_consistency() {
    // Generate multiple IPv6 addresses and check that they all follow the correct format
    for _ in 0..10 {
        let ipv6 = generate_private_ipv6();

        // Validate format
        assert!(is_valid_private_ipv6(&ipv6));

        // Extract and validate parts
        let without_cidr = &ipv6[0..ipv6.len() - 4];
        let groups: Vec<&str> = without_cidr.split(':').collect();

        // First group should start with "fd"
        assert!(groups[0].starts_with("fd"));

        // All groups should be valid hexadecimal
        for group in groups {
            assert!(!group.is_empty());
            for c in group.chars() {
                assert!(c.is_ascii_hexdigit());
            }
        }
    }
}

#[test]
fn test_with_values_groups_round_trip() {
    // Each rendered group parses back to the value it was built from.
    for (byte, g2, g3, g4) in [
        (0u8, 0u16, 0u16, 0u16),
        (15, 1, 0, 65535),
        (10, 256, 4096, 1),
        (255, 65535, 65535, 65535),
        (171, 4660, 22136, 43981),
    ] {
        let ipv6 = generate_private_ipv6_with_values(byte, g2, g3, g4);
        assert!(is_valid_private_ipv6(&ipv6));
        assert!(ipv6.ends_with(":/64"));

        let parts: Vec<&str> = ipv6[0..ipv6.len() - 4].split(':').collect();
        assert_eq!(parts.len(), 4);

        // First group: "fd" followed by the zero-padded byte
        assert_eq!(parts[0], format!("fd{:02x}", byte));

        // The other groups are compact hex of the inputs
        assert_eq!(u32::from_str_radix(parts[1], 16).unwrap(), g2 as u32);
        assert_eq!(u32::from_str_radix(parts[2], 16).unwrap(), g3 as u32);
        assert_eq!(u32::from_str_radix(parts[3], 16).unwrap(), g4 as u32);
    }
}

#[test]
fn test_with_values_padding_boundary() {
    // One below and one at the padding boundary of the first byte
    assert_eq!(generate_private_ipv6_with_values(15, 1, 2, 3), "fd0f:1:2:3:/64");
    assert_eq!(generate_private_ipv6_with_values(16, 1, 2, 3), "fd10:1:2:3:/64");
}

#[test]
fn test_validator_accepts_uppercase_hex_digits() {
    // The hex-digit class covers both cases; the marker "fd" itself is exact.
    assert!(is_valid_private_ipv6("fd01:ABCD:EF01:9:/64"));
    assert!(!is_valid_private_ipv6("FD01:2345:6789:abcd:/64"));
}

#[test]
fn test_validator_rejects_edge_shapes() {
    assert!(!is_valid_private_ipv6(":/64")); // nothing before the suffix
    assert!(!is_valid_private_ipv6("fd:1:2:3")); // suffix missing entirely
    assert!(!is_valid_private_ipv6("fd01:1:2:3:")); // colon but no /64
    assert!(!is_valid_private_ipv6("fd:1:2::/64")); // empty last group
    assert!(!is_valid_private_ipv6("f:1:2:3:/64")); // first group too short for the marker
    assert!(is_valid_private_ipv6("fd:1:2:3:/64")); // marker alone is a valid first group
    assert!(!is_valid_private_ipv6("fd01:23 45:6789:abcd:/64")); // embedded space
}

#[test]
fn test_generate_hex_is_lowercase_compact() {
    for max in [0u16, 1, 15, 255, 4095, 65535] {
        let hex = generate_hex(max);
        assert!(!hex.is_empty());
        assert!(hex.chars().all(|c| c.is_ascii_hexdigit() && !c.is_ascii_uppercase()));
        // compact: no leading zero unless the value is exactly zero
        if hex.len() > 1 {
            assert!(!hex.starts_with('0'));
        }
        assert!(u32::from_str_radix(&hex, 16).unwrap() <= max as u32);
    }
}
