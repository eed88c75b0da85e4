use hwbp::utils::HexParseError;
use hwbp::utils::TopologyError;
use hwbp::utils::VersionError;
use hwbp::utils::hexstr2int;
use hwbp::utils::parse_cpu_list;
use hwbp::utils::parse_kernel_release;

#[test]
fn hex_parses_with_prefix() {
    assert_eq!(hexstr2int(&String::from("0x1f")), Ok(31));
}

#[test]
fn hex_parses_without_prefix() {
    assert_eq!(hexstr2int(&String::from("ff")), Ok(255));
}

#[test]
fn hex_parses_mixed_case() {
    assert_eq!(hexstr2int(&String::from("0xDeadBeef")), Ok(0xdead_beef));
}

#[test]
fn hex_zero() {
    assert_eq!(hexstr2int(&String::from("0x0")), Ok(0));
    assert_eq!(hexstr2int(&String::from("0")), Ok(0));
}

#[test]
fn hex_empty_is_error() {
    assert_eq!(hexstr2int(&String::from("")), Err(HexParseError::Empty));
    assert_eq!(hexstr2int(&String::from("0x")), Err(HexParseError::Empty));
}

#[test]
fn hex_invalid_digit_is_error() {
    assert_eq!(
        hexstr2int(&String::from("0x12g4")),
        Err(HexParseError::InvalidDigit)
    );
    assert_eq!(
        hexstr2int(&String::from("main")),
        Err(HexParseError::InvalidDigit)
    );
}

#[test]
fn hex_at_the_address_width_limit() {
    assert_eq!(
        hexstr2int(&String::from("0xffffffffffffffff")),
        Ok(usize::MAX)
    );
    assert_eq!(
        hexstr2int(&String::from("0x10000000000000000")),
        Err(HexParseError::Overflow)
    );
}

#[test]
fn cpu_list_expands_ranges_in_order() {
    assert_eq!(parse_cpu_list("0-3,5,7-8"), Ok(vec![0, 1, 2, 3, 5, 7, 8]));
}

#[test]
fn cpu_list_single_index() {
    assert_eq!(parse_cpu_list("2"), Ok(vec![2]));
}

#[test]
fn cpu_list_trims_whitespace() {
    assert_eq!(parse_cpu_list("0-1\n"), Ok(vec![0, 1]));
    assert_eq!(parse_cpu_list("  4,6  "), Ok(vec![4, 6]));
}

#[test]
fn cpu_list_reversed_range_is_empty() {
    assert_eq!(parse_cpu_list("3-1"), Ok(vec![]));
}

#[test]
fn cpu_list_empty_is_error() {
    assert_eq!(parse_cpu_list(""), Err(TopologyError {}));
    assert_eq!(parse_cpu_list("   \n"), Err(TopologyError {}));
}

#[test]
fn cpu_list_malformed_is_error() {
    assert_eq!(parse_cpu_list("x"), Err(TopologyError {}));
    assert_eq!(parse_cpu_list("1-"), Err(TopologyError {}));
    assert_eq!(parse_cpu_list("-3"), Err(TopologyError {}));
    assert_eq!(parse_cpu_list("1,,2"), Err(TopologyError {}));
    assert_eq!(parse_cpu_list("0-3,"), Err(TopologyError {}));
    assert_eq!(parse_cpu_list("1 2"), Err(TopologyError {}));
}

#[test]
fn cpu_list_at_the_index_limit() {
    assert_eq!(parse_cpu_list("2147483647"), Ok(vec![2147483647]));
    assert_eq!(parse_cpu_list("2147483648"), Err(TopologyError {}));
}

#[test]
fn version_at_the_component_limit() {
    assert_eq!(parse_kernel_release("4294967295.0"), Ok((4294967295, 0)));
    assert_eq!(
        parse_kernel_release("4294967296.0"),
        Err(VersionError::BadComponent)
    );
}

#[test]
fn version_parses_release_string() {
    assert_eq!(parse_kernel_release("6.1.0-generic"), Ok((6, 1)));
    assert_eq!(parse_kernel_release("5.15.133"), Ok((5, 15)));
}

#[test]
fn version_without_dot_is_error() {
    assert_eq!(
        parse_kernel_release("5"),
        Err(VersionError::TooFewComponents)
    );
    assert_eq!(
        parse_kernel_release(""),
        Err(VersionError::TooFewComponents)
    );
}

#[test]
fn version_non_numeric_is_error() {
    assert_eq!(parse_kernel_release("a.b"), Err(VersionError::BadComponent));
}

#[test]
fn version_suffix_on_minor_is_rejected() {
    assert_eq!(
        parse_kernel_release("6.1-rc3"),
        Err(VersionError::BadComponent)
    );
}
