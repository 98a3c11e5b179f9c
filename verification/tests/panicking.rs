use kernel::panicking::{get_symbol_name, parse_hex, try_get_symbol_name, unwind_failure, PanicCount, PanicReport};

const MAP: &[u8] = b"0000000000000000 T _start_of_text\n\
0000000000001000 T kmain\n\
0000000000001800 T panic_handler\n\
0000000000002000 t helper\n";

#[test]
fn no_symbol_map() {
    assert_eq!(get_symbol_name(None, 0x1234), "<no symbols>");
}

#[test]
fn address_below_every_symbol_is_unknown() {
    // The symbol at address zero never names anything.
    assert_eq!(get_symbol_name(Some(MAP), 0x10), "<unknown>");
}

#[test]
fn nearest_symbol_below_is_chosen() {
    assert_eq!(get_symbol_name(Some(MAP), 0x1000), "kmain");
    assert_eq!(get_symbol_name(Some(MAP), 0x17ff), "kmain");
    assert_eq!(get_symbol_name(Some(MAP), 0x1800), "panic_handler");
    assert_eq!(get_symbol_name(Some(MAP), 0xffff_ffff), "helper");
}

#[test]
fn listing_stops_at_unparsable_address() {
    let map: &[u8] = b"0000000000001000 T first\nzzzzzzzzzzzzzzzz T broken\n0000000000002000 T later\n";
    assert_eq!(get_symbol_name(Some(map), 0x3000), "first");
}

#[test]
fn listing_stops_at_invalid_utf8() {
    let map: &[u8] = b"0000000000001000 T first\n\xff\xfe\n0000000000002000 T later\n";
    assert_eq!(get_symbol_name(Some(map), 0x3000), "first");
}

#[test]
fn empty_map_names_nothing() {
    assert_eq!(get_symbol_name(Some(b""), 0x3000), "<unknown>");
}

#[test]
fn hex_parsing() {
    assert_eq!(parse_hex(b"0000000000001000"), Some(0x1000));
    assert_eq!(parse_hex(b"+00000000000abCD"), Some(0xabcd));
    assert_eq!(parse_hex(b"+"), None);
    assert_eq!(parse_hex(b""), None);
    assert_eq!(parse_hex(b"-1"), None);
    assert_eq!(parse_hex(b"12g4"), None);
    assert_eq!(parse_hex(b"10000000000000000"), None);
    assert_eq!(parse_hex(b"ffffffffffffffff"), Some(usize::MAX));
}

#[test]
fn nested_panics_are_refused() {
    let mut count = PanicCount::new();
    assert!(!count.panicking());
    assert!(count.try_begin());
    assert!(count.panicking());
    assert!(!count.try_begin());
    count.reset();
    assert!(!count.panicking());
    assert!(count.try_begin());
}

#[test]
fn unwind_failure_reports() {
    // The unwinder reports the end of the stack as reason code 5.
    assert_eq!(unwind_failure(5, 5), PanicReport::Aborting);
    assert_eq!(unwind_failure(3, 5), PanicReport::FailedToPanic(3));
}

#[test]
fn malformed_lines_are_reported() {
    // No line feed after the last line.
    let map: &[u8] = b"0000000000001000 T first\n0000000000002000 T last";
    assert_eq!(try_get_symbol_name(Some(map), 0x3000), None);
    // A line too short to hold a name.
    let map: &[u8] = b"0000000000001000 T first\n00000000\n";
    assert_eq!(try_get_symbol_name(Some(map), 0x3000), None);
    // Lines after the symbol that ends the lookup are not read.
    let map: &[u8] = b"0000000000001000 T first\n0000000000009000 T far\nbad";
    assert_eq!(try_get_symbol_name(Some(map), 0x3000), Some("first"));
    assert_eq!(try_get_symbol_name(None, 0x3000), Some("<no symbols>"));
}
