use multi_agent::Shared;
use std::sync::Arc;

#[derive(Debug, Clone)]
struct MockData {
    pub data_number: u8,
    pub data_string: String,
}

impl MockData {
    fn new(data_number: u8, data_string: String) -> Self {
        Self {
            data_number,
            data_string,
        }
    }
}

#[test]
fn test_shared_load() {
    let data: String = "Hello, World!".to_string();
    let shared: Shared<String> = Shared::new(data.clone());

    assert_eq!(shared.load(), data.into());
}

#[test]
fn test_shared_store() {
    let data: String = "Hello, World!".to_string();
    let shared: Shared<String> = Shared::new(data);

    let data: String = "Goodbye, World!".to_string();
    shared.store(data.clone());

    assert_eq!(shared.load(), data.into());
}

#[test]
fn test_update_atomicity() {
    let shared = Shared::new(MockData::new(0, "initial".to_string()));

    shared.update(|data| {
        data.data_number = 42;
        data.data_string = "updated".to_string();
    });

    let result = shared.load();
    assert_eq!(result.data_number, 42);
    assert_eq!(result.data_string, "updated");
}

#[test]
fn snapshot_taken_before_store_keeps_old_value() {
    let shared = Shared::new(1u32);
    let before = shared.load();
    shared.store(2);
    let after = shared.load();
    assert_eq!(*before, 1);
    assert_eq!(*after, 2);
    assert!(!Arc::ptr_eq(&before, &after));
}

#[test]
fn update_applies_closure_to_a_copy() {
    let shared = Shared::new(vec![1, 2, 3]);
    let before = shared.load();
    shared.update(|v| v.push(4));
    assert_eq!(*shared.load(), vec![1, 2, 3, 4]);
    assert_eq!(*before, vec![1, 2, 3]);
}

#[test]
fn store_is_seen_by_clones() {
    let shared = Shared::new(String::from("a"));
    let other = shared.clone();
    other.store(String::from("b"));
    assert_eq!(*shared.load(), "b");
}
