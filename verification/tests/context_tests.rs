use thoth_note::context::{Context, Entity, Listener, Watch};
use thoth_note::item::TodoItem;

fn item(id: &str, title: &str) -> TodoItem {
    TodoItem::with_id(String::from(id), String::from(title))
}

#[test]
fn create_and_read_through_the_container() {
    let mut cx = Context::new();
    let a = cx.create(item("a", "first"));
    let b = cx.create(item("b", "second"));
    assert_ne!(a, b);
    assert!(cx.contains(a));
    assert_eq!(cx.read(a).title().as_str(), "first");
    assert_eq!(cx.read(b).id().as_str(), "b");
    assert!(cx.get(b).is_some());
    assert!(cx.take_notifications().is_empty());
}

#[test]
fn update_changes_one_entry_and_notes_it() {
    let mut cx = Context::new();
    let a = cx.create(item("a", "first"));
    let b = cx.create(item("b", "second"));
    cx.update(a, |mut it| {
        it.toggle_completed(true);
        it
    });
    assert!(cx.read(a).completed());
    assert!(!cx.read(b).completed());
    assert_eq!(cx.take_notifications(), vec![Entity::Item(a)]);
}

#[test]
fn several_listeners_may_coexist() {
    let mut cx = Context::new();
    let a = cx.create(item("a", "first"));
    let b = cx.create(item("b", "second"));
    let s1 = cx.subscribe(Entity::Item(a), Listener::List);
    let s2 = cx.subscribe(Entity::Item(a), Listener::List);
    let s3 = cx.subscribe(Entity::Item(b), Listener::List);
    assert_ne!(s1, s2);
    let on_a = cx.subscribers(Entity::Item(a));
    assert_eq!(on_a.len(), 2);
    assert!(on_a.contains(&s1));
    assert!(on_a.contains(&s2));
    assert_eq!(cx.subscribers(Entity::Item(b)), vec![s3]);
}

#[test]
fn cancel_stops_the_delivery() {
    let mut cx = Context::new();
    let a = cx.create(item("a", "first"));
    let s1 = cx.subscribe(Entity::Item(a), Listener::List);
    let s2 = cx.subscribe(Entity::Item(a), Listener::List);
    cx.cancel(s1);
    assert_eq!(cx.subscribers(Entity::Item(a)), vec![s2]);
    cx.cancel(s1);
    assert_eq!(cx.subscribers(Entity::Item(a)), vec![s2]);
    cx.cancel(s2);
    assert!(cx.subscribers(Entity::Item(a)).is_empty());
}

#[test]
fn destroy_releases_the_listeners_of_the_entry() {
    let mut cx = Context::new();
    let a = cx.create(item("a", "first"));
    let b = cx.create(item("b", "second"));
    let _s1 = cx.subscribe(Entity::Item(a), Listener::List);
    let _s2 = cx.subscribe(Entity::Item(a), Listener::List);
    let s3 = cx.subscribe(Entity::Item(b), Listener::List);
    let last = cx.destroy(a);
    assert_eq!(last.id().as_str(), "a");
    assert!(!cx.contains(a));
    assert!(cx.get(a).is_none());
    assert!(cx.subscribers(Entity::Item(a)).is_empty());
    assert_eq!(cx.subscribers(Entity::Item(b)), vec![s3]);
    let c = cx.create(item("c", "third"));
    assert_ne!(c, a);
    assert!(cx.subscribers(Entity::Item(c)).is_empty());
    assert!(!cx.contains(a));
}

#[test]
fn notifications_come_out_oldest_first_and_once() {
    let mut cx = Context::new();
    let a = cx.create(item("a", "first"));
    cx.notify(Entity::List);
    cx.notify(Entity::Item(a));
    cx.notify(Entity::Editor);
    assert_eq!(
        cx.take_notifications(),
        vec![Entity::List, Entity::Item(a), Entity::Editor]
    );
    assert!(cx.take_notifications().is_empty());
}

#[test]
fn watch_tells_who_listens_to_whom() {
    let mut cx = Context::new();
    let a = cx.create(item("a", "first"));
    let on_item = cx.subscribe(Entity::Item(a), Listener::List);
    let on_editor = cx.subscribe(Entity::Editor, Listener::App);
    assert_eq!(
        cx.watch(on_item),
        Some(Watch { source: Entity::Item(a), listener: Listener::List })
    );
    assert_eq!(
        cx.watch(on_editor),
        Some(Watch { source: Entity::Editor, listener: Listener::App })
    );
    assert_eq!(cx.subscribers(Entity::Editor), vec![on_editor]);
    assert!(cx.subscribers(Entity::List).is_empty());
    cx.cancel(on_editor);
    assert_eq!(cx.watch(on_editor), None);
    assert!(cx.subscribers(Entity::Editor).is_empty());
    cx.destroy(a);
    assert_eq!(cx.watch(on_item), None);
}
