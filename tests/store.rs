use todo_store::store::{StoreHashmap, StoreHashmapError};
use todo_store::todo::{Todo, TodoStatus, TodoStore, UpdateTodo};

#[test]
fn initialize_store() {
    let hash_store = StoreHashmap::new();
    assert_eq!(hash_store.counter(), 0);
    assert_eq!(hash_store.len(), 0);
}

#[test]
fn insert() {
    let mut hash_store = StoreHashmap::new();

    let todo = hash_store.add("name".to_string()).unwrap();
    assert_eq!(todo.id, 1);
    let todo = hash_store.add("name".to_string()).unwrap();
    assert_eq!(todo.id, 2);
}

#[test]
fn remove() {
    let mut hash_store = StoreHashmap::new();
    let todo = hash_store.add("name".to_string()).unwrap();
    assert_eq!(todo.id, 1);
    let todo = hash_store.remove(1);
    assert!(todo.is_some());
    let todo = hash_store.remove(1);
    assert!(todo.is_none())
}

#[test]
fn update() {
    let mut hash_store = StoreHashmap::new();
    hash_store.add("name".to_string()).unwrap();

    hash_store
        .update(UpdateTodo {
            id: 1,
            name: Some("wowow".to_string()),
            status: None,
        })
        .unwrap();
    let todo = hash_store.get(1);

    match todo {
        None => panic!("Todo is missing"),
        Some(todo) => assert_eq!(todo.name, "wowow".to_string()),
    }
}

#[test]
fn add_returns_the_new_record() {
    let mut s = StoreHashmap::new();
    let t = s.add("buy milk".to_string()).unwrap();
    assert_eq!(t.id, 1);
    assert_eq!(t.name, "buy milk");
    assert_eq!(t.status, TodoStatus::TODO);
    assert_eq!(s.get(1), Some(t));
    assert_eq!(s.counter(), 1);
}

#[test]
fn ids_increase_from_one() {
    let mut s = StoreHashmap::new();
    for expected in 1..=20u8 {
        assert_eq!(s.add(format!("t{}", expected)).unwrap().id, expected);
    }
}

#[test]
fn ids_are_not_reused_after_removal() {
    let mut s = StoreHashmap::new();
    s.add("a".to_string()).unwrap();
    s.add("b".to_string()).unwrap();
    s.remove(2);
    assert_eq!(s.add("c".to_string()).unwrap().id, 3);
}

#[test]
fn add_past_max_fails_with_counter_error() {
    let mut s = StoreHashmap::new();
    for i in 0..255u32 {
        let t = s.add("name".to_string()).unwrap();
        if i % 2 == 0 {
            s.remove(t.id);
        }
    }
    assert_eq!(s.counter(), 255);
    let before = s.len();
    assert!(matches!(s.add("name".to_string()), Err(StoreHashmapError::CounterError)));
    assert_eq!(s.len(), before);
    assert_eq!(s.counter(), 255);
}

#[test]
fn remove_absent_is_idempotent() {
    let mut s = StoreHashmap::new();
    s.add("a".to_string()).unwrap();
    assert!(s.remove(7).is_none());
    assert!(s.remove(7).is_none());
    assert_eq!(s.len(), 1);
    assert_eq!(s.counter(), 1);
}

#[test]
fn update_missing_is_not_found() {
    let mut s = StoreHashmap::new();
    s.add("a".to_string()).unwrap();
    let r = s.update(UpdateTodo { id: 2, name: Some("b".to_string()), status: None });
    assert!(matches!(r, Err(StoreHashmapError::NotFound)));
    assert_eq!(s.get_all(), vec![Todo { id: 1, name: "a".to_string(), status: TodoStatus::TODO }]);
}

#[test]
fn update_keeps_fields_not_given() {
    let mut s = StoreHashmap::new();
    s.add("a".to_string()).unwrap();
    let t = s
        .update(UpdateTodo { id: 1, name: None, status: Some(TodoStatus::DONE) })
        .unwrap();
    assert_eq!(t.name, "a");
    assert_eq!(t.status, TodoStatus::DONE);
    let t = s
        .update(UpdateTodo { id: 1, name: Some("b".to_string()), status: None })
        .unwrap();
    assert_eq!(t.name, "b");
    assert_eq!(t.status, TodoStatus::DONE);
    assert_eq!(s.get(1), Some(t));
}

#[test]
fn get_all_lists_each_record_once() {
    let mut s = StoreHashmap::new();
    assert!(s.get_all().is_empty());
    for n in ["a", "b", "c", "d"] {
        s.add(n.to_string()).unwrap();
    }
    s.remove(2);
    let mut all = s.get_all();
    all.sort_by_key(|t| t.id);
    let ids: Vec<u8> = all.iter().map(|t| t.id).collect();
    assert_eq!(ids, vec![1, 3, 4]);
    assert_eq!(all[1].name, "c");
}

#[test]
fn save_then_load_gives_back_the_records() {
    let mut s = StoreHashmap::new();
    for n in ["a", "b", "c"] {
        s.add(n.to_string()).unwrap();
    }
    s.update(UpdateTodo { id: 2, name: None, status: Some(TodoStatus::DONE) }).unwrap();
    s.remove(3);
    let saved = s.get_all();
    let loaded = StoreHashmap::load(saved).unwrap();
    let mut a = s.get_all();
    let mut b = loaded.get_all();
    a.sort_by_key(|t| t.id);
    b.sort_by_key(|t| t.id);
    assert_eq!(a, b);
    assert_eq!(loaded.counter(), 2);
}

#[test]
fn load_empty_list_starts_counter_at_zero() {
    let mut s = StoreHashmap::load(Vec::new()).unwrap();
    assert_eq!(s.counter(), 0);
    assert_eq!(s.len(), 0);
    assert_eq!(s.add("x".to_string()).unwrap().id, 1);
}

#[test]
fn load_resumes_after_largest_id() {
    let values = vec![
        Todo { id: 7, name: "a".to_string(), status: TodoStatus::DONE },
        Todo { id: 3, name: "b".to_string(), status: TodoStatus::TODO },
    ];
    let mut s = StoreHashmap::load(values).unwrap();
    assert_eq!(s.counter(), 7);
    assert_eq!(s.add("c".to_string()).unwrap().id, 8);
}

#[test]
fn load_later_duplicate_wins() {
    let values = vec![
        Todo { id: 2, name: "first".to_string(), status: TodoStatus::TODO },
        Todo { id: 2, name: "second".to_string(), status: TodoStatus::DONE },
    ];
    let s = StoreHashmap::load(values).unwrap();
    assert_eq!(s.len(), 1);
    assert_eq!(s.get(2).unwrap().name, "second");
}

#[test]
fn load_rejects_id_zero() {
    let values = vec![Todo { id: 0, name: "a".to_string(), status: TodoStatus::TODO }];
    assert!(matches!(StoreHashmap::load(values), Err(StoreHashmapError::DeserializationError)));
}

#[test]
fn load_or_new_falls_back_to_empty() {
    let s = StoreHashmap::load_or_new(Err(StoreHashmapError::DeserializationError));
    assert_eq!(s.len(), 0);
    assert_eq!(s.counter(), 0);
    let bad = vec![Todo { id: 0, name: "a".to_string(), status: TodoStatus::TODO }];
    let s = StoreHashmap::load_or_new(Ok(bad));
    assert_eq!(s.len(), 0);
    let good = vec![Todo { id: 4, name: "a".to_string(), status: TodoStatus::TODO }];
    let s = StoreHashmap::load_or_new(Ok(good));
    assert_eq!(s.len(), 1);
    assert_eq!(s.counter(), 4);
}

#[test]
fn get_counter_issues_then_stops() {
    let mut s = StoreHashmap::new();
    assert_eq!(s.get_counter().unwrap(), 1);
    assert_eq!(s.get_counter().unwrap(), 2);
    for _ in 0..253 {
        s.get_counter().unwrap();
    }
    assert!(matches!(s.get_counter(), Err(StoreHashmapError::CounterError)));
}

#[test]
fn describe_formats_a_record() {
    let t = Todo { id: 42, name: "milk".to_string(), status: TodoStatus::DONE };
    assert_eq!(t.describe(), "Id: 42, Name: milk, Status: DONE");
    let t = Todo { id: 7, name: "x".to_string(), status: TodoStatus::TODO };
    assert_eq!(t.describe(), "Id: 7, Name: x, Status: TODO");
}
