use vstd::prelude::*;
use crate::arena::Handle;
use crate::context::{Context, Entity, Listener, Subscription, Watch};
use crate::editor::{EditorState, InputEvent};
use crate::item::{is_random_uuid_text, ItemView, TodoItem};
use crate::list::TodoList;

verus! {

/// The root controller: one list, one draft editor and the container that
/// owns the entries. It listens to the editor and turns a submit into a new
/// entry, and it delivers every signal to those who listen for it before the
/// call that caused the signal returns.
pub struct TodoApp {
    cx: Context,
    todo_list: TodoList,
    editor: EditorState,
    editor_subscription: Subscription,
}

impl TodoApp {
    /// The handles of the entries, in display order.
    pub closed spec fn handles(&self) -> Seq<Handle> {
        self.todo_list.handles()
    }

    /// The entries as plain values, in display order.
    pub closed spec fn entries(&self) -> Seq<ItemView> {
        self.todo_list.entries(&self.cx)
    }

    /// The draft in the editor.
    pub closed spec fn text(&self) -> Seq<char> {
        self.editor@
    }

    /// The repaint notifications not yet fetched, oldest first.
    pub closed spec fn pending(&self) -> Seq<Entity> {
        self.cx.pending()
    }

    /// Whether `h` was handed out for an entry at some time, alive or not.
    pub closed spec fn issued(&self, h: Handle) -> bool {
        self.cx.issued(h)
    }

    /// The registration by which the controller listens to the editor.
    pub open spec fn watch_on_editor() -> Watch {
        Watch { source: Entity::Editor, listener: Listener::App }
    }

    /// The list is well formed, the entries in the list are all the entries
    /// there are, the controller listens to the editor, and nobody listens to
    /// anything besides the controller and the list.
    pub closed spec fn wf(&self) -> bool {
        &&& self.todo_list.wf(&self.cx)
        &&& self.cx.watches().dom().contains(self.editor_subscription)
        &&& self.cx.watches()[self.editor_subscription] == Self::watch_on_editor()
        &&& forall|h: Handle| #[trigger]
            self.cx.items().dom().contains(h) ==> self.todo_list.handles().contains(h)
        &&& forall|s: Subscription| #[trigger]
            self.cx.watches().dom().contains(s) ==> s == self.editor_subscription
                || self.todo_list.subscriptions().contains(s)
    }

    /// What handling the editor's event `event` leaves of the state `before`,
    /// as the state `after`: an edit asks for a repaint of the editor, a plain
    /// Enter submits the draft, and anything else changes nothing.
    pub open spec fn handled(before: &TodoApp, after: &TodoApp, event: InputEvent) -> bool {
        match event {
            InputEvent::Change => Self::edited(before, after, before.text()),
            InputEvent::PressEnter { secondary: false } => Self::committed(before, after),
            _ => Self::same_content(before, after) && after.pending() == before.pending(),
        }
    }

    /// What a submit leaves of the state `before`, as the state `after`: one
    /// entry more, which stands last, holds the draft as it was at the
    /// submit, is not done, and has a fresh handle and a freshly drawn
    /// identifier; the draft is empty; the list and then the editor are noted
    /// for repainting.
    pub open spec fn committed(before: &TodoApp, after: &TodoApp) -> bool {
        let h = after.handles().last();
        let id = after.entries().last().id;
        &&& is_random_uuid_text(id)
        &&& after.entries() == before.entries().push(
            ItemView { id, title: before.text(), completed: false },
        )
        &&& after.handles() == before.handles().push(h)
        &&& !before.issued(h)
        &&& forall|g: Handle| after.issued(g) <==> before.issued(g) || g == h
        &&& after.text() == Seq::<char>::empty()
        &&& after.pending() == before.pending().push(Entity::List).push(Entity::Editor)
    }

    /// What replacing the draft by `draft` leaves of the state `before`, as
    /// the state `after`: the draft is `draft`, the entries are untouched, and
    /// the editor is noted for repainting.
    pub open spec fn edited(before: &TodoApp, after: &TodoApp, draft: Seq<char>) -> bool {
        &&& after.text() == draft
        &&& after.entries() == before.entries()
        &&& after.handles() == before.handles()
        &&& forall|g: Handle| after.issued(g) <==> before.issued(g)
        &&& after.pending() == before.pending().push(Entity::Editor)
    }

    /// What setting the completion flag of the entry behind `h` to
    /// `new_value` leaves of the state `before`, as the state `after`: that
    /// entry has the flag as given and its other fields as before, every other
    /// entry is as before, the order stands, and the entry is noted for
    /// repainting.
    pub open spec fn toggled(before: &TodoApp, after: &TodoApp, h: Handle, new_value: bool) -> bool {
        let i = before.handles().index_of(h);
        &&& 0 <= i < before.entries().len()
        &&& before.handles()[i] == h
        &&& after.entries() == before.entries().update(
            i,
            before.entries()[i].with_completed(new_value),
        )
        &&& forall|j: int|
            0 <= j < before.entries().len() && j != i ==> #[trigger] after.entries()[j]
                == before.entries()[j]
        &&& after.handles() == before.handles()
        &&& after.text() == before.text()
        &&& forall|g: Handle| after.issued(g) <==> before.issued(g)
        &&& after.pending() == before.pending().push(Entity::Item(h))
    }

    /// What the removal of the entry behind `h` leaves of the state `before`,
    /// as the state `after`: exactly that entry has left the list, the others
    /// keep their order and every field, the handle is dead, and the list is
    /// noted for repainting.
    pub open spec fn deleted(before: &TodoApp, after: &TodoApp, h: Handle) -> bool {
        let i = before.handles().index_of(h);
        &&& 0 <= i < before.entries().len()
        &&& before.handles()[i] == h
        &&& after.entries() == before.entries().remove(i)
        &&& after.handles() == before.handles().remove(i)
        &&& !after.handles().contains(h)
        &&& after.text() == before.text()
        &&& forall|g: Handle| after.issued(g) <==> before.issued(g)
        &&& after.pending() == before.pending().push(Entity::List)
    }

    /// Whether `after` differs from `before` in nothing but the repaint
    /// notifications.
    pub open spec fn same_content(before: &TodoApp, after: &TodoApp) -> bool {
        &&& after.entries() == before.entries()
        &&& after.handles() == before.handles()
        &&& after.text() == before.text()
        &&& forall|g: Handle| after.issued(g) <==> before.issued(g)
    }

    /// In a well-formed state no handle stands twice in the list, and there
    /// is one entry for each handle.
    pub proof fn lemma_handles_distinct(&self)
        requires
            self.wf(),
        ensures
            self.handles().no_duplicates(),
            self.entries().len() == self.handles().len(),
            forall|i: int| 0 <= i < self.handles().len() ==> self.issued(#[trigger] self.handles()[i]),
    {
        assert forall|i: int| 0 <= i < self.handles().len() implies self.issued(
            #[trigger] self.handles()[i],
        ) by {
            self.cx.lemma_live_is_issued(self.handles()[i]);
        }
    }

    /// An empty list, an empty draft, nothing to repaint.
    pub fn new() -> (app: Self)
        ensures
            app.wf(),
            app.entries() == Seq::<ItemView>::empty(),
            app.handles() == Seq::<Handle>::empty(),
            app.text() == Seq::<char>::empty(),
            app.pending() == Seq::<Entity>::empty(),
            forall|h: Handle| !app.issued(h),
    {
        let mut cx = Context::new();
        let editor_subscription = cx.subscribe(Entity::Editor, Listener::App);
        let app = TodoApp {
            cx,
            todo_list: TodoList::new(),
            editor: EditorState::new(),
            editor_subscription,
        };
        app
    }

    /// The draft in the editor.
    pub fn editor_text(&self) -> (text: &String)
        ensures
            text@ == self.text(),
    {
        self.editor.text()
    }

    /// The handles of the entries, in display order.
    pub fn items(&self) -> (items: &Vec<Handle>)
        ensures
            items@ == self.handles(),
    {
        self.todo_list.items()
    }

    /// The entry behind `h`, or `None` where `h` is not, or no longer, in the
    /// list.
    pub fn item(&self, h: Handle) -> (item: Option<&TodoItem>)
        requires
            self.wf(),
        ensures
            match item {
                Some(state) => self.handles().contains(h) && state@
                    == self.entries()[self.handles().index_of(h)],
                None => !self.handles().contains(h),
            },
    {
        self.cx.get(h)
    }

    /// Hands the collected repaint notifications to the renderer, oldest
    /// first, and starts collecting anew.
    pub fn take_notifications(&mut self) -> (notes: Vec<Entity>)
        requires
            old(self).wf(),
        ensures
            final(self).wf(),
            notes@ == old(self).pending(),
            final(self).pending() == Seq::<Entity>::empty(),
            Self::same_content(old(self), final(self)),
    {
        let notes = self.cx.take_notifications();
        notes
    }

    /// Replaces the draft by `new_value` and notes the editor for
    /// repainting.
    pub fn set_text(&mut self, new_value: String)
        requires
            old(self).wf(),
        ensures
            final(self).wf(),
            Self::edited(old(self), final(self), new_value@),
    {
        let signal = self.editor.set_text(new_value);
        self.emit_input(signal);
    }

    /// Submits the draft: the editor reports the submit, and the report is
    /// delivered as any other of its events.
    pub fn commit(&mut self)
        requires
            old(self).wf(),
        ensures
            final(self).wf(),
            Self::committed(old(self), final(self)),
    {
        let signal = self.editor.commit();
        self.emit_input(signal);
    }

    /// Submits the draft without going through the editor's event: the
    /// action behind the append button. It does what [`TodoApp::commit`]
    /// does.
    pub fn append(&mut self)
        requires
            old(self).wf(),
        ensures
            final(self).wf(),
            Self::committed(old(self), final(self)),
    {
        let _ = self.commit_draft();
    }

    /// Delivers the editor's signal `event` to everyone who listens to the
    /// editor, before it returns. The controller listens, and handles it.
    pub fn emit_input(&mut self, event: InputEvent)
        requires
            old(self).wf(),
        ensures
            final(self).wf(),
            Self::handled(old(self), final(self), event),
    {
        let listeners = self.cx.subscribers(Entity::Editor);
        proof {
            self.lemma_sole_listener(Entity::Editor, self.editor_subscription, listeners@);
        }
        let mut n: usize = 0;
        while n < listeners.len()
            invariant
                n <= listeners@.len(),
                listeners@ == seq![old(self).editor_subscription],
                old(self).wf(),
                self.wf(),
                n == 0 ==> *self == *old(self),
                n > 0 ==> Self::handled(old(self), self, event),
            decreases listeners@.len() - n,
        {
            match self.cx.watch(listeners[n]) {
                Some(watch) => match watch.listener {
                    Listener::App => self.handle_input_event(event),
                    Listener::List => {},
                },
                None => {},
            }
            n += 1;
        }
    }

    /// Where `sole` listens to `source` and no other registration does, a
    /// snapshot of those that listen to `source` holds `sole` and nothing
    /// else.
    proof fn lemma_sole_listener(&self, source: Entity, sole: Subscription, found: Seq<Subscription>)
        requires
            self.cx.watches().dom().contains(sole),
            self.cx.watches()[sole].source == source,
            forall|s: Subscription|
                self.cx.watches().dom().contains(s) && self.cx.watches()[s].source == source ==> s
                    == sole,
            found.no_duplicates(),
            forall|s: Subscription|
                found.contains(s) <==> self.cx.watches().dom().contains(s)
                    && self.cx.watches()[s].source == source,
        ensures
            found == seq![sole],
    {
        assert(found.contains(sole));
        assert forall|k: int| 0 <= k < found.len() implies found[k] == sole by {
            assert(found.contains(found[k]));
        }
        if found.len() > 1 {
            assert(found[0] == found[1]);
        }
    }

    /// Reacts to an event of the editor. An edit asks for a repaint of the
    /// editor; a plain Enter submits the draft; anything else is ignored.
    pub fn handle_input_event(&mut self, event: InputEvent)
        requires
            old(self).wf(),
        ensures
            final(self).wf(),
            Self::handled(old(self), final(self), event),
    {
        match event {
            InputEvent::Change => {
                self.cx.notify(Entity::Editor);
                assert(self.entries() =~= old(self).entries());
            },
            InputEvent::PressEnter { secondary } => {
                if !secondary {
                    let _ = self.commit_draft();
                }
            },
            _ => {},
        }
    }

    /// Turns the draft into a new entry at the end of the list and clears
    /// the draft. Returns the identifier of the new entry.
    pub fn commit_draft(&mut self) -> (id: String)
        requires
            old(self).wf(),
        ensures
            final(self).wf(),
            Self::committed(old(self), final(self)),
            id@ == final(self).entries().last().id,
    {
        let title = self.editor.text().clone();
        let id = self.todo_list.add_item(title, &mut self.cx);
        // The editor's report of this change asks for a repaint and no more.
        // It is answered here: to deliver it would re-enter the controller
        // from inside a delivery.
        let _ = self.editor.set_text(String::new());
        self.cx.notify(Entity::Editor);
        proof {
            let h = self.todo_list.handles().last();
            let s = self.todo_list.subscriptions().last();
            assert forall|g: Handle| #[trigger]
                self.cx.items().dom().contains(g) implies self.todo_list.handles().contains(g) by {
                if g != h {
                    let k = old(self).todo_list.handles().index_of(g);
                    assert(self.todo_list.handles()[k] == g);
                }
            }
            assert forall|t: Subscription| #[trigger]
                self.cx.watches().dom().contains(t) implies
                t == self.editor_subscription || self.todo_list.subscriptions().contains(t) by {
                if t != s && t != self.editor_subscription {
                    let k = old(self).todo_list.subscriptions().index_of(t);
                    assert(self.todo_list.subscriptions()[k] == t);
                }
            }
        }
        id
    }

    /// Sets the completion flag of the entry behind `h` to `new_value` and
    /// notes the entry for repainting. No other entry, and no other field of
    /// this one, is touched.
    pub fn toggle_completed(&mut self, h: Handle, new_value: bool)
        requires
            old(self).wf(),
            old(self).handles().contains(h),
        ensures
            final(self).wf(),
            Self::toggled(old(self), final(self), h, new_value),
    {
        let ghost i = self.handles().index_of(h);
        let toggle = |item: TodoItem| -> (toggled: TodoItem)
            ensures
                toggled@ == item@.with_completed(new_value),
            {
                let mut item = item;
                item.toggle_completed(new_value);
                item
            };
        self.cx.update(h, toggle);
        proof {
            assert(self.entries() =~= old(self).entries().update(
                i,
                old(self).entries()[i].with_completed(new_value),
            ));
        }
    }

    /// Has the entry behind `h` send its removal signal and delivers the
    /// signal to everyone who listens to the entry, before it returns. The
    /// list listens: the entry leaves the list and is destroyed, the other
    /// entries keep their order and every field, and the list is noted for
    /// repainting.
    pub fn request_delete(&mut self, h: Handle)
        requires
            old(self).wf(),
            old(self).handles().contains(h),
        ensures
            final(self).wf(),
            Self::deleted(old(self), final(self), h),
    {
        let ghost i = self.handles().index_of(h);
        assert(self.handles()[i] == h);
        let signal = self.cx.read(h).request_delete();
        let listeners = self.cx.subscribers(Entity::Item(h));
        proof {
            let sole = self.todo_list.subscriptions()[i];
            self.lemma_sole_listener(Entity::Item(h), sole, listeners@);
        }
        let mut n: usize = 0;
        while n < listeners.len()
            invariant
                n <= listeners@.len(),
                listeners@ == seq![old(self).todo_list.subscriptions()[i]],
                0 <= i < old(self).handles().len(),
                old(self).handles()[i] == h,
                old(self).handles().index_of(h) == i,
                old(self).wf(),
                self.wf(),
                n == 0 ==> *self == *old(self),
                n > 0 ==> Self::deleted(old(self), self, h),
            decreases listeners@.len() - n,
        {
            match self.cx.watch(listeners[n]) {
                Some(watch) => match watch.listener {
                    Listener::List => {
                        self.todo_list.on_delete(h, signal, &mut self.cx);
                        proof {
                            Self::lemma_removed_is_absent(old(self).handles(), i);
                            assert forall|g: Handle| #[trigger]
                                self.cx.items().dom().contains(g) implies
                                self.todo_list.handles().contains(g) by {
                                assert(old(self).cx.items().dom().contains(g));
                                let k = old(self).handles().index_of(g);
                                let k1 = if k < i { k } else { k - 1 };
                                assert(self.todo_list.handles()[k1] == g);
                            }
                            assert forall|s: Subscription| #[trigger]
                                self.cx.watches().dom().contains(s) implies
                                s == self.editor_subscription
                                    || self.todo_list.subscriptions().contains(s) by {
                                if s != self.editor_subscription {
                                    let k = old(self).todo_list.subscriptions().index_of(s);
                                    let k1 = if k < i { k } else { k - 1 };
                                    assert(self.todo_list.subscriptions()[k1] == s);
                                }
                            }
                        }
                    },
                    Listener::App => {},
                },
                None => {},
            }
            n += 1;
        }
    }

    /// Where nothing stands twice, what is removed is no longer there.
    proof fn lemma_removed_is_absent(handles: Seq<Handle>, i: int)
        requires
            handles.no_duplicates(),
            0 <= i < handles.len(),
        ensures
            !handles.remove(i).contains(handles[i]),
    {
        let rest = handles.remove(i);
        if rest.contains(handles[i]) {
            let k = choose|k: int| 0 <= k < rest.len() && rest[k] == handles[i];
            let k0 = if k < i { k } else { k + 1 };
            assert(handles[k0] == rest[k]);
        }
    }
}

} // verus!
