use client_bridge::{EventQueue, Handle, PollOutcome, Registry, RegistryError};

#[test]
fn register_returns_distinct_handles_for_identical_clients() {
    let mut reg: Registry<String> = Registry::new();
    let h1 = reg.register("same".to_string());
    let h2 = reg.register("same".to_string());
    assert_ne!(h1, h2);
    assert_eq!(reg.len(), 2);
    assert_eq!(reg.resolve(&h1), Ok(&"same".to_string()));
    assert_eq!(reg.resolve(&h2), Ok(&"same".to_string()));
}

#[test]
fn resolve_finds_each_client_under_its_handle() {
    let mut reg: Registry<u32> = Registry::new();
    let a = reg.register(10);
    let b = reg.register(20);
    assert_eq!(reg.resolve(&a), Ok(&10));
    assert_eq!(reg.resolve(&b), Ok(&20));
}

#[test]
fn resolve_unknown_handle_is_not_found() {
    let mut reg: Registry<u32> = Registry::new();
    assert_eq!(reg.resolve(&Handle::from_id(0)), Err(RegistryError::NotFound));
    let h = reg.register(1);
    assert_eq!(Handle::from_id(h.id()), h);
    assert_eq!(reg.resolve(&Handle::from_id(h.id() + 1)), Err(RegistryError::NotFound));
}

#[test]
fn queue_is_first_in_first_out() {
    let mut q = EventQueue::new();
    assert_eq!(q.poll(), PollOutcome::Pending);
    q.push("one".to_string());
    q.push("two".to_string());
    assert_eq!(q.len(), 2);
    assert_eq!(q.poll(), PollOutcome::Event("one".to_string()));
    q.close();
    assert_eq!(q.poll(), PollOutcome::Event("two".to_string()));
    assert_eq!(q.len(), 0);
    assert_eq!(q.poll(), PollOutcome::Closed);
}
