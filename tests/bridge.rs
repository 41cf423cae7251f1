use hello_raw::bridge::{word_align, Bridge, BridgeError};
use hello_raw::greeting::greet;

#[test]
fn greet_wraps_name() {
    assert_eq!(greet("Rust!"), "Hello, Rust!");
    assert_eq!(greet("Rust"), "Hello, Rust");
    assert_eq!(greet(""), "Hello, ");
    assert_eq!(greet("héllo"), "Hello, héllo");
}

#[test]
fn allocate_gives_non_null_aligned_distinct_pointers() {
    let mut b = Bridge::new();
    let align = word_align();
    let p = b.allocate(3).unwrap();
    let q = b.allocate(17).unwrap();
    assert_ne!(p, 0);
    assert_ne!(q, 0);
    assert_ne!(p, align);
    assert_ne!(p, q);
    assert_eq!(p % align, 0);
    assert_eq!(q % align, 0);
    assert_eq!(b.outstanding_bytes(), 20);
}

#[test]
fn allocate_fill_deallocate_round_trip() {
    let mut b = Bridge::new();
    let before = b.outstanding_bytes();
    let p = b.allocate(8).unwrap();
    assert_eq!(b.outstanding_bytes(), before + 8);
    b.write(p, 0, &[1, 2, 3, 4, 5, 6, 7, 8]).unwrap();
    assert_eq!(b.deallocate(p, 8), Ok(()));
    assert_eq!(b.outstanding_bytes(), before);
}

#[test]
fn allocate_zero_returns_sentinel() {
    let mut b = Bridge::new();
    let s = b.allocate(0).unwrap();
    assert_eq!(s, word_align());
    assert_ne!(s, 0);
    assert_eq!(b.outstanding_bytes(), 0);
}

#[test]
fn deallocate_zero_is_noop_for_any_pointer() {
    let mut b = Bridge::new();
    let p = b.allocate(4).unwrap();
    let s = b.allocate(0).unwrap();
    assert_eq!(b.deallocate(s, 0), Ok(()));
    assert_eq!(b.deallocate(0xdead_beef, 0), Ok(()));
    assert_eq!(b.deallocate(p, 0), Ok(()));
    assert_eq!(b.outstanding_bytes(), 4);
    assert_eq!(b.deallocate(p, 4), Ok(()));
}

#[test]
fn deallocate_errors() {
    let mut b = Bridge::new();
    let p = b.allocate(4).unwrap();
    assert_eq!(b.deallocate(p, 5), Err(BridgeError::SizeMismatch));
    assert_eq!(b.deallocate(p + 1, 4), Err(BridgeError::UnknownPointer));
    assert_eq!(b.deallocate(p, 4), Ok(()));
    assert_eq!(b.deallocate(p, 4), Err(BridgeError::UnknownPointer));
    assert_eq!(b.outstanding_bytes(), 0);
}

#[test]
fn allocate_too_large_fails() {
    let mut b = Bridge::new();
    assert_eq!(b.allocate(usize::MAX), Err(BridgeError::AllocationFailure));
    assert_eq!(b.allocate(usize::MAX - 3), Err(BridgeError::AllocationFailure));
    assert_eq!(b.outstanding_bytes(), 0);
}

#[test]
fn write_errors() {
    let mut b = Bridge::new();
    let p = b.allocate(4).unwrap();
    assert_eq!(b.write(p, 2, &[1, 2, 3]), Err(BridgeError::OutOfBounds));
    assert_eq!(b.write(p, 5, &[]), Ok(()));
    assert_eq!(b.write(0, 0, &[]), Ok(()));
    assert_eq!(b.write(p + 8, 0, &[1]), Err(BridgeError::UnknownPointer));
    assert_eq!(b.write(p, 4, &[]), Ok(()));
}

#[test]
fn transform_reads_written_text() {
    let mut b = Bridge::new();
    let p = b.allocate(5).unwrap();
    b.write(p, 0, b"Rust!").unwrap();
    let h = b.transform(p, 5).unwrap();
    assert_eq!(b.value(h).unwrap(), "Hello, Rust!");
    assert_eq!(b.release_handle(h), Ok(()));
    assert_eq!(b.deallocate(p, 5), Ok(()));
}

#[test]
fn transform_reads_prefix_and_partial_writes() {
    let mut b = Bridge::new();
    let p = b.allocate(6).unwrap();
    b.write(p, 0, b"xxxxxx").unwrap();
    b.write(p, 1, b"ab").unwrap();
    let h = b.transform(p, 4).unwrap();
    assert_eq!(b.value(h).unwrap(), "Hello, xabx");
    b.release_handle(h).unwrap();
    b.deallocate(p, 6).unwrap();
}

#[test]
fn transform_multibyte_text() {
    let mut b = Bridge::new();
    let text = "żółw";
    let p = b.allocate(text.len()).unwrap();
    b.write(p, 0, text.as_bytes()).unwrap();
    let h = b.transform(p, text.len()).unwrap();
    assert_eq!(b.value(h).unwrap(), "Hello, żółw");
    b.release_handle(h).unwrap();
    b.deallocate(p, text.len()).unwrap();
}

#[test]
fn transform_empty_region_of_sentinel() {
    let mut b = Bridge::new();
    let s = b.allocate(0).unwrap();
    let h = b.transform(s, 0).unwrap();
    assert_eq!(b.value(h).unwrap(), "Hello, ");
    b.release_handle(h).unwrap();
    assert_eq!(b.live_handles(), 0);
}

#[test]
fn transform_rejects_invalid_utf8() {
    let mut b = Bridge::new();
    let p = b.allocate(2).unwrap();
    b.write(p, 0, &[0xC3, 0x28]).unwrap();
    assert_eq!(b.transform(p, 2), Err(BridgeError::InvalidUtf8));
    // A cut through a multi-byte character is not well-formed either.
    b.write(p, 0, "é".as_bytes()).unwrap();
    assert_eq!(b.transform(p, 1), Err(BridgeError::InvalidUtf8));
    assert_eq!(b.live_handles(), 0);
    b.deallocate(p, 2).unwrap();
}

#[test]
fn transform_rejects_bad_bounds() {
    let mut b = Bridge::new();
    let p = b.allocate(3).unwrap();
    assert_eq!(b.transform(p, 4), Err(BridgeError::OutOfBounds));
    assert_eq!(b.transform(p + 1, 1), Err(BridgeError::OutOfBounds));
    assert_eq!(b.transform(0, 1), Err(BridgeError::OutOfBounds));
    assert_eq!(b.live_handles(), 0);
    b.deallocate(p, 3).unwrap();
}

#[test]
fn transform_leaves_input_buffer_alive() {
    let mut b = Bridge::new();
    let p = b.allocate(2).unwrap();
    b.write(p, 0, b"hi").unwrap();
    let h1 = b.transform(p, 2).unwrap();
    let h2 = b.transform(p, 2).unwrap();
    assert_ne!(h1, h2);
    assert_eq!(b.outstanding_bytes(), 2);
    assert_eq!(b.value(h2).unwrap(), "Hello, hi");
    b.release_handle(h1).unwrap();
    b.release_handle(h2).unwrap();
    b.deallocate(p, 2).unwrap();
}

#[test]
fn release_exactly_once() {
    let mut b = Bridge::new();
    let s = b.allocate(0).unwrap();
    let h = b.transform(s, 0).unwrap();
    assert_eq!(b.release_handle(h), Ok(()));
    assert!(b.value(h).is_none());
    assert_eq!(b.release_handle(h), Err(BridgeError::UnknownHandle));
    assert_eq!(b.release_handle(h + 100), Err(BridgeError::UnknownHandle));
    assert_eq!(b.release_handle(0), Err(BridgeError::UnknownHandle));
}

#[test]
fn box_value_issues_fresh_handles() {
    let mut b = Bridge::new();
    let h1 = b.box_value(String::from("a")).unwrap();
    let h2 = b.box_value(String::from("b")).unwrap();
    assert_ne!(h1, 0);
    assert_ne!(h1, h2);
    assert_eq!(b.value(h1).unwrap(), "a");
    assert_eq!(b.value(h2).unwrap(), "b");
    assert_eq!(b.live_handles(), 2);
    b.release_handle(h1).unwrap();
    let h3 = b.box_value(String::from("c")).unwrap();
    assert_ne!(h3, h1);
    assert_eq!(b.live_handles(), 2);
}

#[test]
fn end_to_end_rust_greeting() {
    let mut b = Bridge::new();
    let baseline = b.outstanding_bytes();
    let ptr = b.allocate(5).unwrap();
    b.write(ptr, 0, &[b'R', b'u', b's', b't', b'!']).unwrap();
    let h = b.transform(ptr, 5).unwrap();
    assert_eq!(b.value(h).unwrap(), "Hello, Rust!");
    b.release_handle(h).unwrap();
    b.deallocate(ptr, 5).unwrap();
    assert_eq!(b.outstanding_bytes(), baseline);
    assert_eq!(b.live_handles(), 0);
}

#[test]
fn every_issued_handle_released_once() {
    let mut b = Bridge::new();
    let mut handles = Vec::new();
    for name in ["a", "bc", "", "déf"] {
        let p = b.allocate(name.len()).unwrap();
        b.write(p, 0, name.as_bytes()).unwrap();
        handles.push(b.transform(p, name.len()).unwrap());
        b.deallocate(p, name.len()).unwrap();
    }
    assert_eq!(b.live_handles(), 4);
    for h in &handles {
        assert_eq!(b.release_handle(*h), Ok(()));
    }
    assert_eq!(b.live_handles(), 0);
    assert_eq!(b.outstanding_bytes(), 0);
}
