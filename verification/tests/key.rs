use std::cmp::Ordering;
use std::sync::LazyLock;

use rambit::key::{Key, Segment};
use rambit::slug::StrictSlug;
use rambit::starc::Starc;

static A: LazyLock<StrictSlug> = LazyLock::new(|| StrictSlug::new("a"));
static B: LazyLock<StrictSlug> = LazyLock::new(|| StrictSlug::new("b"));
static C: LazyLock<StrictSlug> = LazyLock::new(|| StrictSlug::new("c"));

fn owned(s: &str) -> Starc<StrictSlug> {
    Starc::new_owned(StrictSlug::new(s))
}

#[test]
fn key_display() {
    let key = Key::new(Starc::new_static(&*A));
    assert_eq!(key.to_string(), "a");

    let mut key = Key::new(Starc::new_static(&*A));
    key.push(Starc::new_static(&*B));
    assert_eq!(key.to_string(), "a:b");

    let mut key = Key::new(Starc::new_static(&*A));
    key.push(Starc::new_static(&*B));
    key.push(Starc::new_static(&*C));
    assert_eq!(key.to_string(), "a:b:c");
}

#[test]
fn key_push() {
    let mut key = Key::new(Starc::new_static(&*A));
    key.push(Starc::new_static(&*B));
    assert_eq!(key.to_string(), "a:b");

    key.push(Starc::new_static(&*C));
    assert_eq!(key.to_string(), "a:b:c");
}

#[test]
fn key_push_new() {
    let key = Key::new(Starc::new_static(&*A));
    let new_key = key.push_new(Starc::new_static(&*B));
    assert_eq!(new_key.to_string(), "a:b");

    let new_key = new_key.push_new(Starc::new_static(&*C));
    assert_eq!(new_key.to_string(), "a:b:c");
}

#[test]
fn key_get() {
    let key = Key::new(Starc::new_static(&*A));
    assert_eq!(key.get(0), Some(&Segment::Strict(Starc::new_static(&*A))));
    assert_eq!(key.get(1), None);

    let mut key = Key::new(Starc::new_static(&*A));
    key.push(Starc::new_static(&*B));
    assert_eq!(key.get(0), Some(&Segment::Strict(Starc::new_static(&*A))));
    assert_eq!(key.get(1), Some(&Segment::Strict(Starc::new_static(&*B))));
    assert_eq!(key.get(2), None);
}

#[test]
fn key_with_chains_segments() {
    let key = Key::new(owned("ns")).with(owned("cache")).with(owned("entry"));
    assert_eq!(key.to_string(), "ns:cache:entry");
    assert_eq!(key.len(), 3);
    let segs: Vec<String> = key.segments().iter().map(|s| s.as_str().to_string()).collect();
    assert_eq!(segs, vec!["ns", "cache", "entry"]);
}

#[test]
fn key_push_new_leaves_receiver_unchanged() {
    let key = Key::new(owned("a"));
    let longer = key.push_new(owned("b"));
    assert_eq!(key.to_string(), "a");
    assert_eq!(longer.to_string(), "a:b");
}

#[test]
fn key_bytes_roundtrip() {
    let key = Key::new(owned("nika")).with(owned("store")).with(owned("x1"));
    let bytes = key.to_bytes();
    assert_eq!(bytes, b"nika:store:x1".to_vec());
    let parsed = Key::try_from(bytes).unwrap();
    assert_eq!(parsed, key);
}

#[test]
fn key_try_from_slugifies_pieces() {
    let parsed = Key::try_from(b"Hello World:Foo_Bar::x".to_vec()).unwrap();
    assert_eq!(parsed.to_string(), "hello-world:foo-bar::x");
    assert_eq!(parsed.len(), 4);
    let single = Key::try_from(Vec::new()).unwrap();
    assert_eq!(single.len(), 1);
    assert_eq!(single.to_string(), "");
}

#[test]
fn key_try_from_rejects_invalid_utf8() {
    assert!(Key::try_from(vec![0xff, 0xfe]).is_err());
}

#[test]
fn key_order_is_lexicographic_by_segment() {
    let a = Key::new(owned("a"));
    let ab = Key::new(owned("a")).with(owned("b"));
    let b = Key::new(owned("b"));
    let aa = Key::new(owned("aa"));
    assert!(a.less_than(&ab));
    assert!(ab.less_than(&b));
    assert!(a.less_than(&aa));
    assert!(ab.less_than(&aa));
    assert!(!b.less_than(&a));
    assert!(!a.less_than(&a));
}

#[test]
fn segment_compares_text() {
    let x = Segment::Strict(owned("x"));
    let y = Segment::Strict(owned("y"));
    assert!(x.less_than(&y));
    assert!(x.same_as(&Segment::Strict(Starc::new_static(&*LAZY_X))));
    assert_eq!(x.as_str(), "x");
}

static LAZY_X: LazyLock<StrictSlug> = LazyLock::new(|| StrictSlug::new("X"));

#[test]
fn starc_variants_give_their_value() {
    let leaked: &'static StrictSlug = Box::leak(Box::new(StrictSlug::new("s")));
    let st = Starc::new_static(leaked);
    assert_eq!(st.get().as_str(), "s");
    let ow = Starc::new_owned(StrictSlug::new("o"));
    assert_eq!(ow.get().as_str(), "o");
    let lz = Starc::new_static(&*A);
    assert!(matches!(lz, Starc::Static(_)));
    assert_eq!(lz.get().as_str(), "a");
    assert_eq!(ow.clone().get().as_str(), "o");
}

#[test]
fn key_and_segment_comparison_operators() {
    let a = Key::new(owned("a"));
    let ab = Key::new(owned("a")).with(owned("b"));
    let aa = Key::new(owned("aa"));
    assert!(a < ab);
    assert!(ab < aa);
    assert!(aa > a);
    assert!(a <= Key::new(owned("a")));
    assert_eq!(a.partial_cmp(&Key::new(Starc::new_static(&*A))), Some(Ordering::Equal));
    assert_eq!(aa.partial_cmp(&ab), Some(Ordering::Greater));

    let x = Segment::Strict(owned("x"));
    let y = Segment::Strict(owned("y"));
    assert!(x < y);
    assert_eq!(y.partial_cmp(&x), Some(Ordering::Greater));
    assert_eq!(x.partial_cmp(&Segment::Strict(owned("x"))), Some(Ordering::Equal));
}
