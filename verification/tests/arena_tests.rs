use thoth_note::arena::{Arena, Handle};

#[test]
fn new_arena_is_empty() {
    let arena: Arena<u32> = Arena::new();
    assert!(arena.handles().is_empty());
}

#[test]
fn create_then_read() {
    let mut arena: Arena<u32> = Arena::new();
    let a = arena.create(10);
    let b = arena.create(20);
    assert_ne!(a, b);
    assert!(arena.contains(a));
    assert!(arena.contains(b));
    assert_eq!(*arena.read(a), 10);
    assert_eq!(*arena.read(b), 20);
    assert_eq!(arena.get(a), Some(&10));
}

#[test]
fn removed_handle_is_dead() {
    let mut arena: Arena<u32> = Arena::new();
    let a = arena.create(10);
    let b = arena.create(20);
    assert_eq!(arena.remove(a), 10);
    assert!(!arena.contains(a));
    assert_eq!(arena.get(a), None);
    assert!(arena.contains(b));
    assert_eq!(*arena.read(b), 20);
}

#[test]
fn recycled_slot_refuses_the_old_handle() {
    let mut arena: Arena<u32> = Arena::new();
    let a = arena.create(10);
    arena.remove(a);
    let b = arena.create(30);
    assert_ne!(a, b);
    assert!(!arena.contains(a));
    assert_eq!(arena.get(a), None);
    assert_eq!(arena.get(b), Some(&30));
    assert_eq!(arena.handles(), vec![b]);
}

#[test]
fn handles_are_never_handed_out_twice() {
    let mut arena: Arena<u32> = Arena::new();
    let mut seen: Vec<Handle> = Vec::new();
    let mut round: u32 = 0;
    while round < 20 {
        let h = arena.create(round);
        assert!(!seen.contains(&h));
        seen.push(h);
        if round % 2 == 0 {
            arena.remove(h);
        }
        round += 1;
    }
    assert_eq!(arena.handles().len(), 10);
}

#[test]
fn update_applies_the_transition_to_one_entity() {
    let mut arena: Arena<u32> = Arena::new();
    let a = arena.create(1);
    let b = arena.create(2);
    arena.update(a, |v| v + 40);
    assert_eq!(*arena.read(a), 41);
    assert_eq!(*arena.read(b), 2);
}

#[test]
fn handles_lists_each_live_entity_once() {
    let mut arena: Arena<u32> = Arena::new();
    let a = arena.create(1);
    let b = arena.create(2);
    let c = arena.create(3);
    arena.remove(b);
    let live = arena.handles();
    assert_eq!(live.len(), 2);
    assert!(live.contains(&a));
    assert!(live.contains(&c));
    assert!(!live.contains(&b));
}
