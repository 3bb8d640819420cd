use kata_device_plugin::text::{
    base_name, contains, decimal_string, join_path, slashes_to_dashes, trim, white_space,
};

#[test]
fn decimal_texts() {
    assert_eq!(decimal_string(0), "0");
    assert_eq!(decimal_string(9), "9");
    assert_eq!(decimal_string(10), "10");
    assert_eq!(decimal_string(1_234_567_890), "1234567890");
    assert_eq!(decimal_string(u64::MAX), u64::MAX.to_string());
}

#[test]
fn search_in_text() {
    assert!(contains("abcabd", "abd"));
    assert!(contains("aab", "ab"));
    assert!(contains("x", ""));
    assert!(contains("", ""));
    assert!(!contains("", "x"));
    assert!(!contains("ab", "abc"));
    assert!(contains("grün wie gras", "ün wie"));
}

#[test]
fn white_space_is_as_in_unicode() {
    for c in (0u32..0x11_0000).filter_map(char::from_u32) {
        assert_eq!(white_space(c), c.is_whitespace(), "{c:?}");
    }
}

#[test]
fn trimming() {
    for s in ["", " ", "a", " a b ", "\n\ta\u{a0}", "\u{3000}x y", "keep"] {
        assert_eq!(trim(s), s.trim());
    }
}

#[test]
fn replacing_and_base_names() {
    assert_eq!(slashes_to_dashes("a/b/c"), "a-b-c");
    assert_eq!(slashes_to_dashes(""), "");
    assert_eq!(base_name("a/b/c", '/'), "c");
    assert_eq!(base_name("abc", '/'), "abc");
    assert_eq!(base_name("a/", '/'), "");
    assert_eq!(base_name("", '/'), "");
}

#[test]
fn paths_join_as_in_std() {
    for dir in ["", "/", "/var/run", "/var/run/", "rel"] {
        for name in ["", "a", "a/b", "/abs"] {
            let expected = std::path::Path::new(dir).join(name);
            assert_eq!(join_path(dir, name), expected.to_str().unwrap(), "{dir} {name}");
        }
    }
}
