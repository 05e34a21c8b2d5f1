use symbol_ty::{Cons, InternStore, Nil, Symbol};

type Hello = Cons<104, Cons<101, Cons<108, Cons<108, Cons<111, Nil>>>>>;
type Hi = Cons<104, Cons<105, Nil>>;

#[test]
fn test_deref() {
    let mut store = InternStore::new();
    assert_eq!(store.len(), 0);

    let hello = Hello::new();
    assert_eq!(store.deref(&hello), "hello");
    assert_eq!(store.len(), 1);
    assert_eq!(store.deref(&hello), "hello");
    assert_eq!(store.len(), 1);
    assert_eq!(store.deref(&hello), "hello");
    assert_eq!(store.len(), 1);

    // The identical literal, constructed independently, is the identical
    // type, so it hits the same entry.
    let hi_one = Hi::new();
    let hi_two = Hi::new();
    assert_eq!(store.deref(&hi_one), "hi");
    assert_eq!(store.len(), 2);
    assert_eq!(store.deref(&hi_two), "hi");
    assert_eq!(store.len(), 2);

    let empty = Nil::new();
    assert_eq!(store.deref(&empty), "");
    assert_eq!(store.len(), 3);
    assert_eq!(store.deref(&empty), "");
    assert_eq!(store.len(), 3);
}

#[test]
fn test_free() {
    let mut store = InternStore::new();
    assert_eq!(store.len(), 0);

    assert_eq!(store.deref(&Hello::new()), "hello");
    assert_eq!(store.len(), 1);
    assert_eq!(store.deref(&Hi::new()), "hi");
    assert_eq!(store.len(), 2);

    // Reclaiming one entry leaves the other untouched.
    store.free::<Hello>();
    assert_eq!(store.len(), 1);
    assert_eq!(store.deref(&Hi::new()), "hi");
    assert_eq!(store.len(), 1);
    store.free::<Hi>();
    assert_eq!(store.len(), 0);

    // Reclaiming an absent entry is a no-op, not an error.
    store.free::<Hello>();
    assert_eq!(store.len(), 0);

    // Dereferencing again after reclamation recreates a fresh entry.
    assert_eq!(store.deref(&Hi::new()), "hi");
    assert_eq!(store.len(), 1);
}

#[test]
fn test_free_ref() {
    let mut store = InternStore::new();
    assert_eq!(store.len(), 0);

    fn use_symbol(store: &mut InternStore, s: &impl Symbol) {
        let _text = store.deref(s);
        store.free_ref(s);
    }

    assert_eq!(store.deref(&Hello::new()), "hello");
    assert_eq!(store.len(), 1);
    assert_eq!(store.deref(&Hi::new()), "hi");
    assert_eq!(store.len(), 2);

    use_symbol(&mut store, &Hello::new());
    assert_eq!(store.len(), 1);
    use_symbol(&mut store, &Hi::new());
    assert_eq!(store.len(), 0);
}

#[test]
fn test_free_all() {
    let mut store = InternStore::new();
    // Safe to call on an empty cache.
    store.free_all();
    assert_eq!(store.len(), 0);

    assert_eq!(store.deref(&Hello::new()), "hello");
    assert_eq!(store.deref(&Hi::new()), "hi");
    assert_eq!(store.deref(&Nil::new()), "");
    assert_eq!(store.len(), 3);

    store.free_all();
    assert_eq!(store.len(), 0);

    // The cache works normally after a full drain.
    assert_eq!(store.deref(&Hi::new()), "hi");
    assert_eq!(store.len(), 1);
}

#[test]
fn test_lookup_checked() {
    let mut store = InternStore::new();
    assert!(store.lookup::<Hi>().is_none());
    store.deref(&Hi::new());
    assert_eq!(store.lookup::<Hi>().unwrap(), "hi");
    store.free::<Hi>();
    // Reading after a reclaim is a checked miss, not a stale view.
    assert!(store.lookup::<Hi>().is_none());
}
