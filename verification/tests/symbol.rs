use std::collections::hash_map::DefaultHasher;
use std::hash::{Hash, Hasher};
use symbol_ty::{
    char_utf8_len, collect_code_points, collect_code_points_rev, symbol_type_expr, Cons, Nil,
    Symbol, SymbolChars,
};

type Hello = Cons<104, Cons<101, Cons<108, Cons<108, Cons<111, Nil>>>>>;
type Abc = Cons<97, Cons<98, Cons<99, Nil>>>;
type FooBar = Cons<102, Cons<111, Cons<111, Cons<95, Cons<98, Cons<97, Cons<114, Nil>>>>>>>;
type FooBarBaz = Cons<
    102,
    Cons<
        111,
        Cons<
            111,
            Cons<32, Cons<98, Cons<97, Cons<114, Cons<32, Cons<98, Cons<97, Cons<122, Nil>>>>>>>>,
        >,
    >,
>;
// One non-ASCII symbol: "é€" (0xE9 takes two UTF-8 bytes, 0x20AC three).
type Accented = Cons<0xE9, Cons<0x20AC, Nil>>;

#[test]
fn test_empty_symbol() {
    assert_eq!(Nil::new().debug_text(), "Nil");
}

#[test]
fn test_display() {
    assert_eq!(Hello::new().display(), "hello");
}

#[test]
fn test_debug() {
    assert_eq!(
        Hello::new().debug_text(),
        "Cons('h', Cons('e', Cons('l', Cons('l', Cons('o', Nil)))))"
    );
}

#[test]
fn test_iter() {
    let expected = vec!['h' as u32, 'e' as u32, 'l' as u32, 'l' as u32, 'o' as u32];
    assert_eq!(collect_code_points(Hello::chars()), expected);
}

#[test]
fn test_iter_rev() {
    let expected = vec!['o' as u32, 'l' as u32, 'l' as u32, 'e' as u32, 'h' as u32];
    assert_eq!(collect_code_points_rev(Hello::chars()), expected);
}

#[test]
fn test_fuse() {
    let mut chars = Abc::chars();
    assert_eq!(chars.next(), Some('a' as u32));
    assert_eq!(chars.next(), Some('b' as u32));
    assert_eq!(chars.next(), Some('c' as u32));
    assert_eq!(chars.next(), None);
    assert_eq!(chars.next(), None);
    assert_eq!(chars.next(), None);
}

#[test]
fn test_rev_fuse() {
    let mut chars = Abc::chars();
    assert_eq!(chars.next_back(), Some('c' as u32));
    assert_eq!(chars.next_back(), Some('b' as u32));
    assert_eq!(chars.next_back(), Some('a' as u32));
    assert_eq!(chars.next_back(), None);
    assert_eq!(chars.next_back(), None);
    assert_eq!(chars.next_back(), None);
}

#[test]
fn test_mixed_fuse() {
    // Forward and backward draining meet in the middle and both ends stay
    // exhausted for good.
    let mut chars = Abc::chars();
    assert_eq!(chars.next(), Some('a' as u32));
    assert_eq!(chars.next_back(), Some('c' as u32));
    assert_eq!(chars.next(), Some('b' as u32));
    assert_eq!(chars.next(), None);
    assert_eq!(chars.next_back(), None);
    assert_eq!(chars.next(), None);
    assert_eq!(chars.next_back(), None);
}

#[test]
fn mem_size_zero() {
    assert_eq!(core::mem::size_of::<Nil>(), 0);
    assert_eq!(core::mem::size_of::<FooBar>(), 0);
    assert_eq!(core::mem::size_of::<FooBarBaz>(), 0);
}

#[test]
fn test_len_and_size_hint() {
    let mut chars = Hello::chars();
    assert_eq!(chars.len(), 5);
    assert_eq!(chars.size_hint(), (5, Some(5)));
    assert_eq!(chars.next(), Some('h' as u32));
    assert_eq!(chars.len(), 4);
    assert_eq!(chars.size_hint(), (4, Some(4)));
    assert_eq!(collect_code_points(Nil::chars()), Vec::<u32>::new());
    assert_eq!(Nil::chars().len(), 0);
    assert_eq!(Nil::chars().size_hint(), (0, Some(0)));
}

#[test]
fn test_char_count_not_byte_length() {
    // Two characters, five UTF-8 bytes.
    assert_eq!(Accented::chars().len(), 2);
    assert_eq!(Accented::byte_len(), 5);
    assert_eq!(Hello::byte_len(), 5);
    assert_eq!(Nil::byte_len(), 0);
    assert_eq!(Accented::new().display(), "é€");
}

#[test]
fn test_char_utf8_len_widths() {
    assert_eq!(char_utf8_len('a'), 1);
    assert_eq!(char_utf8_len('é'), 2);
    assert_eq!(char_utf8_len('€'), 3);
    assert_eq!(char_utf8_len('𝄞'), 4);
}

#[test]
fn test_same_literal_same_type() {
    fn takes_hello(s: Hello) -> String {
        s.display()
    }

    let a = Hello::new();
    let b = Hello::new();
    assert!(a == b);
    assert_eq!(a.cmp(&b), core::cmp::Ordering::Equal);
    assert!(Hello::default() == a);

    let mut ha = DefaultHasher::new();
    a.hash(&mut ha);
    let mut hb = DefaultHasher::new();
    b.hash(&mut hb);
    assert_eq!(ha.finish(), hb.finish());

    // A value from one construction is substitutable wherever the other is
    // expected: the two invocations denote the identical type.
    assert_eq!(takes_hello(b), "hello");
}

#[test]
fn test_wf_check() {
    assert!(Hello::wf_check());
    assert!(Nil::wf_check());
    assert!(Accented::wf_check());
    // A surrogate value is not a Unicode scalar.
    assert!(!<Cons<0xD800, Nil>>::wf_check());
}

#[test]
fn test_generator_empty() {
    assert_eq!(symbol_type_expr("", "crate"), "crate::Nil");
}

#[test]
fn test_generator_nested() {
    assert_eq!(
        symbol_type_expr("hi", "::symbol_ty"),
        "::symbol_ty::Cons<104, ::symbol_ty::Cons<105, ::symbol_ty::Nil>>"
    );
    assert_eq!(
        symbol_type_expr("é", "crate"),
        "crate::Cons<233, crate::Nil>"
    );
}

#[test]
fn test_code_points() {
    assert_eq!(Abc::code_points(), vec![97, 98, 99]);
    assert_eq!(Nil::code_points(), Vec::<u32>::new());
}
