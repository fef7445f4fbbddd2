use thoth_note::context::{Context, Entity};
use thoth_note::item::DeleteTodo;
use thoth_note::list::TodoList;

#[test]
fn new_list_is_empty() {
    let list = TodoList::new();
    assert_eq!(list.len(), 0);
    assert!(list.items().is_empty());
}

#[test]
fn items_stand_in_call_order() {
    let mut cx = Context::new();
    let mut list = TodoList::new();
    let titles = vec!["one", "two", "three", "four"];
    let mut ids: Vec<String> = Vec::new();
    for t in titles.iter() {
        ids.push(list.add_item(String::from(*t), &mut cx));
    }
    assert_eq!(list.len(), 4);
    let mut i: usize = 0;
    while i < 4 {
        let h = list.items()[i];
        assert_eq!(cx.read(h).title().as_str(), titles[i]);
        assert_eq!(cx.read(h).id(), &ids[i]);
        i += 1;
    }
}

#[test]
fn returned_ids_and_handles_are_unique() {
    let mut cx = Context::new();
    let mut list = TodoList::new();
    let mut ids: Vec<String> = Vec::new();
    let mut round: u32 = 0;
    while round < 30 {
        let id = list.add_item(String::from("same title"), &mut cx);
        assert!(!ids.contains(&id));
        ids.push(id);
        round += 1;
    }
    let handles = list.items().clone();
    let mut i: usize = 0;
    while i < handles.len() {
        let mut j: usize = i + 1;
        while j < handles.len() {
            assert_ne!(handles[i], handles[j]);
            j += 1;
        }
        i += 1;
    }
}

#[test]
fn read_after_write() {
    let mut cx = Context::new();
    let mut list = TodoList::new();
    let id = list.add_item(String::from("X"), &mut cx);
    assert_eq!(list.len(), 1);
    let h = list.items()[0];
    let item = cx.read(h);
    assert_eq!(item.id(), &id);
    assert_eq!(item.title().as_str(), "X");
    assert!(!item.completed());
}

#[test]
fn add_item_with_id_keeps_the_id_given() {
    let mut cx = Context::new();
    let mut list = TodoList::new();
    let h = list.add_item_with_id(String::from("id-7"), String::from("seven"), &mut cx);
    assert_eq!(list.items(), &vec![h]);
    assert_eq!(cx.read(h).id().as_str(), "id-7");
    assert_eq!(cx.read(h).title().as_str(), "seven");
    assert!(!cx.read(h).completed());
}

#[test]
fn add_item_subscribes_and_notes_the_list() {
    let mut cx = Context::new();
    let mut list = TodoList::new();
    let h = list.add_item_with_id(String::from("id-1"), String::from("one"), &mut cx);
    assert_eq!(cx.subscribers(Entity::Item(h)).len(), 1);
    assert_eq!(cx.take_notifications(), vec![Entity::List]);
}

#[test]
fn empty_title_is_appended_as_it_is() {
    let mut cx = Context::new();
    let mut list = TodoList::new();
    let id = list.add_item(String::new(), &mut cx);
    assert_eq!(id.len(), 36);
    assert_eq!(cx.read(list.items()[0]).title().as_str(), "");
}

#[test]
fn position_finds_the_handle() {
    let mut cx = Context::new();
    let mut list = TodoList::new();
    let a = list.add_item_with_id(String::from("a"), String::from("A"), &mut cx);
    let b = list.add_item_with_id(String::from("b"), String::from("B"), &mut cx);
    assert_eq!(list.position(a), Some(0));
    assert_eq!(list.position(b), Some(1));
    list.on_delete(a, DeleteTodo, &mut cx);
    assert_eq!(list.position(a), None);
    assert_eq!(list.position(b), Some(0));
}

#[test]
fn delete_removes_exactly_one_entry() {
    let mut cx = Context::new();
    let mut list = TodoList::new();
    let a = list.add_item_with_id(String::from("a"), String::from("A"), &mut cx);
    let b = list.add_item_with_id(String::from("b"), String::from("B"), &mut cx);
    let c = list.add_item_with_id(String::from("c"), String::from("C"), &mut cx);
    cx.update(c, |mut it| {
        it.toggle_completed(true);
        it
    });
    cx.take_notifications();
    list.on_delete(b, DeleteTodo, &mut cx);
    assert_eq!(list.items(), &vec![a, c]);
    assert!(!cx.contains(b));
    assert!(cx.subscribers(Entity::Item(b)).is_empty());
    assert_eq!(cx.read(a).id().as_str(), "a");
    assert_eq!(cx.read(a).title().as_str(), "A");
    assert!(!cx.read(a).completed());
    assert_eq!(cx.read(c).id().as_str(), "c");
    assert_eq!(cx.read(c).title().as_str(), "C");
    assert!(cx.read(c).completed());
    assert_eq!(cx.subscribers(Entity::Item(a)).len(), 1);
    assert_eq!(cx.subscribers(Entity::Item(c)).len(), 1);
    assert_eq!(cx.take_notifications(), vec![Entity::List]);
}

#[test]
fn signal_from_a_stranger_changes_nothing() {
    let mut cx = Context::new();
    let mut list = TodoList::new();
    let a = list.add_item_with_id(String::from("a"), String::from("A"), &mut cx);
    list.on_delete(a, DeleteTodo, &mut cx);
    let b = list.add_item_with_id(String::from("b"), String::from("B"), &mut cx);
    cx.take_notifications();
    list.on_delete(a, DeleteTodo, &mut cx);
    assert_eq!(list.items(), &vec![b]);
    assert!(cx.contains(b));
    assert!(cx.take_notifications().is_empty());
}
