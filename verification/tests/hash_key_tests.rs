use fast_i18n_scan::hash_key::{hash_key_simple, hash_string, radix_36, KeyRegistry};

fn chars(v: Vec<char>) -> String {
    v.into_iter().collect()
}

#[test]
fn test_hash_key_basic() {
    let mut reg = KeyRegistry::new();
    reg.clear_key_map();

    let key1 = reg.hash_key("Hello World", None);
    let key2 = reg.hash_key("Hello World", None);

    assert_eq!(key1, key2);
    assert!(key1.starts_with("k_"));
    assert_eq!(key1.len(), 9);

    reg.clear_key_map();
    assert_eq!(reg.get_key_map_size(), 0);
}

#[test]
fn test_hash_key_with_context() {
    let key1 = hash_key_simple("Hello", Some("context1"));
    let key2 = hash_key_simple("Hello", Some("context2"));

    assert_eq!(key1, key2);
}

#[test]
fn test_hash_key_whitespace_removal() {
    let key1 = hash_key_simple("Hello World", None);
    let key2 = hash_key_simple("Hello   World", None);
    let key3 = hash_key_simple("HelloWorld", None);

    assert_eq!(key1, key2);
    assert_eq!(key2, key3);
}

#[test]
fn test_radix_36() {
    assert_eq!(chars(radix_36(0)), "0");
    assert_eq!(chars(radix_36(35)), "z");
    assert_eq!(chars(radix_36(36)), "10");
}

#[test]
fn test_hash_string() {
    let hash1 = hash_string("test");
    let hash2 = hash_string("test");
    let hash3 = hash_string("different");

    assert_eq!(hash1, hash2);
    assert_ne!(hash1, hash3);
}

#[test]
fn test_key_map_operations() {
    let key1 = hash_key_simple("test_value_1", None);
    let key2 = hash_key_simple("test_value_2", None);
    let key3 = hash_key_simple("test_value_1", None);

    assert!(key1.starts_with("k_"));
    assert!(key2.starts_with("k_"));
    assert!(key3.starts_with("k_"));

    assert_eq!(key1, key3);
    assert_ne!(key1, key2);

    assert_eq!(key1.len(), 9);
    assert_eq!(key2.len(), 9);
    assert_eq!(key3.len(), 9);
}

#[test]
fn test_key_format_shape() {
    for value in ["", "a", "你好世界", "Hello World", "x y z\t\n", "0"] {
        let key = hash_key_simple(value, None);
        assert_eq!(key.len(), 9);
        let bytes = key.as_bytes();
        assert_eq!(&bytes[0..2], b"k_");
        for b in &bytes[2..] {
            assert!(b.is_ascii_digit() || (b'a'..=b'z').contains(b));
        }
    }
}

#[test]
fn test_registry_records_values() {
    let mut reg = KeyRegistry::new();
    let k1 = reg.hash_key("alpha", None);
    let k2 = reg.hash_key("alpha", None);
    assert_eq!(k1, k2);
    assert_eq!(reg.get_key_map_size(), 1);
    reg.hash_key("beta", None);
    assert_eq!(reg.get_key_map_size(), 2);
    assert!(reg.collisions.is_empty());
}

#[test]
fn test_hash_key_known_value() {
    // "a" is the single byte 0x61; the rolling hash of one byte is its value,
    // 97 = 2*36 + 25 in base 36, zero-padded to seven digits.
    assert_eq!(hash_key_simple("a", None), "k_000002p");
}
