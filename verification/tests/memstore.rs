use suraft::memstore::{prefix_right_bound, MemLogStore};

#[test]
fn prefix_right_bound_increments_the_last_char() {
    assert_eq!(Some("b".to_string()), prefix_right_bound("a"));
    assert_eq!(Some("/log0".to_string()), prefix_right_bound("/log/"));
    assert_eq!(None, prefix_right_bound(""));
    assert_eq!(None, prefix_right_bound("\u{10FFFF}\u{10FFFF}"));
    assert_eq!(Some("b".to_string()), prefix_right_bound("a\u{10FFFF}"));
    // The character after U+D7FF would be a surrogate: there is no bound.
    assert_eq!(None, prefix_right_bound("a\u{D7FF}"));
}

#[test]
fn memstore_read_your_write() {
    let mut s = MemLogStore::new();
    assert_eq!(None, s.read("/a"));
    assert!(s.write("/a", b"one", true));
    assert_eq!(Some(b"one".to_vec()), s.read("/a"));
    // An exclusive write does not overwrite.
    assert!(!s.write("/a", b"two", true));
    assert_eq!(Some(b"one".to_vec()), s.read("/a"));
    // A plain write does.
    assert!(s.write("/a", b"two", false));
    assert_eq!(Some(b"two".to_vec()), s.read("/a"));
    // Other paths are left alone.
    assert!(s.write("/b", b"", false));
    assert_eq!(Some(b"two".to_vec()), s.read("/a"));
    assert_eq!(Some(Vec::new()), s.read("/b"));
}

#[test]
fn memstore_list_in_order_after_start() {
    let mut s = MemLogStore::new();
    for p in ["/log/01-3.entry", "/log/01-1.entry", "/log/02-10.entry", "/meta/x", "/lof", "/log"] {
        assert!(s.write(p, b"x", false));
    }
    assert_eq!(
        vec!["/log/01-1.entry", "/log/01-3.entry", "/log/02-10.entry"],
        s.list("/log/", "")
    );
    assert_eq!(vec!["/log/02-10.entry"], s.list("/log/", "/log/01-3.entry"));
    assert_eq!(Vec::<String>::new(), s.list("/nothing/", ""));
    assert_eq!(
        vec!["/lof", "/log", "/log/01-1.entry", "/log/01-3.entry", "/log/02-10.entry", "/meta/x"],
        s.list("", "")
    );
}
