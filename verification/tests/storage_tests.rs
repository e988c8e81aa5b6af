use layerpack::storage::{
    classify_get_failure, ErrorCause, MemoryStore, Storage, StorageError,
};

fn cause(msg: &str) -> ErrorCause {
    ErrorCause { message: msg.to_string(), chain: Vec::new() }
}

#[test]
fn get_never_written_key_is_object_missing() {
    let store = MemoryStore::new();
    let r = store.get_object("missing-key");
    match r {
        Err(StorageError::ObjectMissing(_)) => {}
        _ => panic!("expected ObjectMissing for a key that was never written"),
    }
}

#[test]
fn get_missing_key_is_idempotent() {
    let store = MemoryStore::new();
    let first = store.get_object("missing-key");
    assert!(matches!(first, Err(StorageError::ObjectMissing(_))));
    let second = store.get_object("missing-key");
    assert!(matches!(second, Err(StorageError::ObjectMissing(_))));
}

#[test]
fn get_after_put_returns_exactly_the_value() {
    let mut store = MemoryStore::new();
    let value = vec![7u8, 0, 255, 3];
    store.save_object("asset/a", &value).unwrap();
    let read = store.get_object("asset/a").unwrap();
    assert_eq!(read, value);
}

#[test]
fn second_put_overwrites_first() {
    let mut store = MemoryStore::new();
    store.save_object("k", &[1u8, 2, 3]).unwrap();
    store.save_object("k", &[9u8]).unwrap();
    let read = store.get_object("k").unwrap();
    assert_eq!(read, vec![9u8]);
}

#[test]
fn puts_to_other_keys_do_not_interfere() {
    let mut store = MemoryStore::new();
    store.save_object("a", &[1u8]).unwrap();
    store.save_object("b", &[2u8]).unwrap();
    store.save_object("a", &[3u8]).unwrap();
    assert_eq!(store.get_object("a").unwrap(), vec![3u8]);
    assert_eq!(store.get_object("b").unwrap(), vec![2u8]);
}

#[test]
fn non_definitive_failure_classifies_as_other() {
    let e = classify_get_failure(false, cause("simulated timeout"));
    match &e {
        StorageError::Other(c) => assert_eq!(c.message, "simulated timeout"),
        StorageError::ObjectMissing(_) => {
            panic!("a timeout must never classify as ObjectMissing")
        }
    }
    assert!(!e.is_object_missing());
}

#[test]
fn definitive_not_found_classifies_as_object_missing() {
    let e = classify_get_failure(true, cause("no such key"));
    match &e {
        StorageError::ObjectMissing(c) => assert_eq!(c.message, "no such key"),
        StorageError::Other(_) => panic!("a definitive not-found must be ObjectMissing"),
    }
    assert!(e.is_object_missing());
    let kept = e.cause();
    assert_eq!(kept.message, "no such key");
}
