use yara_x::compiler::ids::{IdentId, LiteralId};
use yara_x::name_index::NameIndex;
use yara_x::string_pool::{bytes_equal, copy_bytes, BStringPool, StringPool};

#[test]
fn identical_strings_get_identical_ids() {
    let mut pool = StringPool::new();
    let a = pool.get_or_intern("foo");
    let b = pool.get_or_intern("bar");
    let c = pool.get_or_intern("foo");
    assert_eq!(a, c);
    assert_ne!(a, b);
    assert_eq!(a, IdentId(0));
    assert_eq!(b, IdentId(1));
    assert_eq!(pool.len(), 2);
}

#[test]
fn ids_are_dense_and_stable() {
    let mut pool = StringPool::new();
    let names = ["$a", "r", "$b", "$a", "pe", "r", "s"];
    let ids: Vec<u32> = names.iter().map(|n| pool.get_or_intern(n).0).collect();
    assert_eq!(ids, vec![0, 1, 2, 0, 3, 1, 4]);
    assert_eq!(pool.get(IdentId(0)), Some("$a"));
    assert_eq!(pool.get(IdentId(3)), Some("pe"));
    assert_eq!(pool.get(IdentId(4)), Some("s"));
    assert_eq!(pool.get(IdentId(5)), None);
    assert_eq!(pool.get_id("$b"), Some(IdentId(2)));
    assert_eq!(pool.get_id("zz"), None);
    assert!(pool.has_room());
}

#[test]
fn empty_string_is_a_string() {
    let mut pool = StringPool::new();
    assert_eq!(pool.get_id(""), None);
    assert_eq!(pool.get_or_intern(""), IdentId(0));
    assert_eq!(pool.get_id(""), Some(IdentId(0)));
    assert_eq!(pool.get(IdentId(0)), Some(""));
}

#[test]
fn literals_may_hold_any_bytes() {
    let mut pool = BStringPool::new();
    let a = pool.get_or_intern(&[0xff, 0x00, 0x41]);
    let b = pool.get_or_intern(b"MZ");
    let c = pool.get_or_intern(&[0xff, 0x00, 0x41]);
    let d = pool.get_or_intern(&[0xff, 0x00]);
    assert_eq!(a, LiteralId(0));
    assert_eq!(b, LiteralId(1));
    assert_eq!(c, a);
    assert_eq!(d, LiteralId(2));
    assert_eq!(pool.len(), 3);
    assert_eq!(pool.get(LiteralId(1)), Some(&b"MZ"[..]));
    assert_eq!(pool.get(LiteralId(3)), None);
    assert_eq!(pool.get_id(b"MZ"), Some(LiteralId(1)));
    assert_eq!(pool.get_id(b"ZM"), None);
}

#[test]
fn name_index_numbers_names_in_order() {
    let mut index = NameIndex::new();
    assert_eq!(index.len(), 0);
    assert_eq!(index.get("a"), None);
    assert_eq!(index.insert("a"), 0);
    assert_eq!(index.insert("b"), 1);
    assert_eq!(index.insert("a"), 0);
    assert_eq!(index.insert("c"), 2);
    assert_eq!(index.len(), 3);
    assert_eq!(index.get("b"), Some(1));
    assert_eq!(index.get("c"), Some(2));
    assert_eq!(index.get("d"), None);
    assert_eq!(index.name(2), "c");
}

#[test]
fn bytes_helpers() {
    assert!(bytes_equal(b"abc", b"abc"));
    assert!(!bytes_equal(b"abc", b"abd"));
    assert!(!bytes_equal(b"abc", b"ab"));
    assert!(bytes_equal(b"", b""));
    assert_eq!(copy_bytes(&[1, 2, 3]), vec![1, 2, 3]);
}

#[test]
fn id_conversions() {
    assert_eq!(IdentId::from(7u32), IdentId(7));
    assert_eq!(u32::from(IdentId(7)), 7);
    assert_eq!(LiteralId::from(7u32), LiteralId(7));
    assert_eq!(LiteralId::from(-1i32), LiteralId(u32::MAX));
    assert_eq!(u32::from(LiteralId(9)), 9);
    assert_eq!(i64::from(LiteralId(u32::MAX)), 4294967295);
    assert_eq!(u64::from(LiteralId(3)), 3);
}
