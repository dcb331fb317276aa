use wasmvm::location::{Located, SourceLocation};

#[test]
fn test_source_location_new() {
    let loc = SourceLocation::new(100, 10);
    assert_eq!(loc.offset, 100);
    assert_eq!(loc.length, 10);
}

#[test]
fn test_source_location_end() {
    let loc = SourceLocation::new(100, 10);
    assert_eq!(loc.end(), 110);
}

#[test]
fn test_source_location_contains() {
    let loc = SourceLocation::new(100, 10);
    assert!(!loc.contains(99));
    assert!(loc.contains(100));
    assert!(loc.contains(105));
    assert!(!loc.contains(110));
}

#[test]
fn test_source_location_from_suffix_slice() {
    let base = &[0u8; 100];
    let slice = &base[10..];
    let loc = SourceLocation::from_slice(base, slice);
    assert_eq!(loc.offset, 10);
    assert_eq!(loc.length, 90);
}

#[test]
fn test_located_new() {
    let loc = SourceLocation::new(100, 10);
    let located = Located::new(42i32, loc);
    assert_eq!(located.value, 42);
    assert_eq!(located.location.offset, 100);
}

#[test]
fn test_located_from_parse() {
    let base = &[0u8, 1, 2, 3, 4];
    let value = "test";
    let remaining = &base[2..];
    let located = Located::from_parse(base, value, remaining);
    assert_eq!(located.value, "test");
    assert_eq!(located.location.offset, 2);
}

#[test]
fn test_located_map() {
    let loc = SourceLocation::new(100, 10);
    let located: Located<i32> = Located::new(42, loc);
    let mapped = located.map(|x| x * 2);
    assert_eq!(mapped.value, 84);
    assert_eq!(mapped.location.offset, 100);
}

#[test]
fn test_located_accessors() {
    let located = Located::new(7u8, SourceLocation::new(3, 1));
    assert_eq!(*located.value(), 7);
    assert_eq!(located.location().offset, 3);
    assert_eq!(located.into_inner(), 7);
}
