use vstd::prelude::*;
use crate::arena::Handle;
use crate::context::{released, Context, Entity, Listener, Subscription, Watch};
use crate::item::{is_random_uuid_text, DeleteTodo, ItemView, TodoItem};

verus! {

/// The ordered collection of entries. It creates the entries, listens to
/// each for its removal signal, and destroys the entry that sends it.
pub struct TodoList {
    items: Vec<Handle>,
    subscriptions: Vec<Subscription>,
}

impl TodoList {
    /// The handles of the entries, in display order.
    pub closed spec fn handles(&self) -> Seq<Handle> {
        self.items@
    }

    /// The registrations by which the list listens to its entries: the
    /// `i`-th is the one for the `i`-th entry.
    pub closed spec fn subscriptions(&self) -> Seq<Subscription> {
        self.subscriptions@
    }

    /// The entries as plain values, in display order, read through `cx`.
    pub open spec fn entries(&self, cx: &Context) -> Seq<ItemView> {
        Seq::new(self.handles().len(), |i: int| cx.items()[self.handles()[i]]@)
    }

    /// The list holds no handle twice, every handle in it refers to a live
    /// entry of `cx`, and the list listens to each of its entries.
    pub open spec fn wf(&self, cx: &Context) -> bool {
        &&& cx.wf()
        &&& self.handles().no_duplicates()
        &&& self.subscriptions().len() == self.handles().len()
        &&& forall|i: int|
            0 <= i < self.handles().len() ==> cx.items().dom().contains(#[trigger] self.handles()[i])
        &&& forall|i: int|
            0 <= i < self.handles().len() ==> cx.watches().dom().contains(
                #[trigger] self.subscriptions()[i],
            ) && cx.watches()[self.subscriptions()[i]] == Self::watch_on(self.handles()[i])
    }

    /// The registration by which the list listens to the entry behind `h`.
    pub open spec fn watch_on(h: Handle) -> Watch {
        Watch { source: Entity::Item(h), listener: Listener::List }
    }

    /// A list without entries.
    pub fn new() -> (list: Self)
        ensures
            list.handles() == Seq::<Handle>::empty(),
            list.subscriptions() == Seq::<Subscription>::empty(),
    {
        TodoList { items: Vec::new(), subscriptions: Vec::new() }
    }

    /// The handles of the entries, in display order.
    pub fn items(&self) -> (items: &Vec<Handle>)
        ensures
            items@ == self.handles(),
    {
        &self.items
    }

    /// The number of entries.
    pub fn len(&self) -> (n: usize)
        ensures
            n == self.handles().len(),
    {
        self.items.len()
    }

    /// Where in the list the entry behind `h` stands, if it is in the list.
    pub fn position(&self, h: Handle) -> (found: Option<usize>)
        ensures
            match found {
                Some(i) => i < self.handles().len() && self.handles()[i as int] == h && forall|
                    j: int,
                |
                    0 <= j < i ==> self.handles()[j] != h,
                None => !self.handles().contains(h),
            },
    {
        let mut i: usize = 0;
        while i < self.items.len()
            invariant
                i <= self.items@.len(),
                forall|j: int| 0 <= j < i ==> self.items@[j] != h,
            decreases self.items@.len() - i,
        {
            if self.items[i] == h {
                return Some(i);
            }
            i += 1;
        }
        None
    }

    /// Appends a new entry with the given text under a freshly drawn
    /// identifier, starts listening for its removal signal, and returns the
    /// identifier.
    pub fn add_item(&mut self, title: String, cx: &mut Context) -> (id: String)
        requires
            old(self).wf(old(cx)),
        ensures
            final(self).wf(final(cx)),
            is_random_uuid_text(id@),
            final(self).handles().len() == old(self).handles().len() + 1,
            Self::appended(
                old(self),
                old(cx),
                final(self),
                final(cx),
                ItemView { id: id@, title: title@, completed: false },
            ),
    {
        let item = TodoItem::new(title);
        let id = item.id().clone();
        self.adopt(item, cx);
        id
    }

    /// Appends a new entry with the given identifier and text, starts
    /// listening for its removal signal, and returns its handle.
    pub fn add_item_with_id(&mut self, id: String, title: String, cx: &mut Context) -> (h: Handle)
        requires
            old(self).wf(old(cx)),
        ensures
            final(self).wf(final(cx)),
            final(self).handles() == old(self).handles().push(h),
            Self::appended(
                old(self),
                old(cx),
                final(self),
                final(cx),
                ItemView { id: id@, title: title@, completed: false },
            ),
    {
        self.adopt(TodoItem::with_id(id, title), cx)
    }

    /// What appending the entry `entry` to the list `before` in the container
    /// `cx0` leaves behind, as the list `after` in the container `cx1`: the
    /// entry stands last under a handle never handed out before, the list
    /// listens to it through one new registration, the list is noted for
    /// repainting, and nothing else has changed.
    pub open spec fn appended(
        before: &TodoList,
        cx0: &Context,
        after: &TodoList,
        cx1: &Context,
        entry: ItemView,
    ) -> bool {
        let h = after.handles().last();
        let s = after.subscriptions().last();
        &&& after.handles() == before.handles().push(h)
        &&& after.subscriptions() == before.subscriptions().push(s)
        &&& after.entries(cx1) == before.entries(cx0).push(entry)
        &&& !cx0.issued(h)
        &&& forall|g: Handle| cx1.issued(g) <==> cx0.issued(g) || g == h
        &&& cx1.items() == cx0.items().insert(h, cx1.items()[h])
        &&& cx1.items()[h]@ == entry
        &&& !cx0.watches().dom().contains(s)
        &&& cx1.watches() == cx0.watches().insert(s, Self::watch_on(h))
        &&& cx1.pending() == cx0.pending().push(Entity::List)
    }

    /// Hands `item` to the container, appends its handle and starts
    /// listening to it.
    fn adopt(&mut self, item: TodoItem, cx: &mut Context) -> (h: Handle)
        requires
            old(self).wf(old(cx)),
        ensures
            final(self).wf(final(cx)),
            final(self).handles() == old(self).handles().push(h),
            Self::appended(old(self), old(cx), final(self), final(cx), item@),
    {
        let h = cx.create(item);
        let subscription = cx.subscribe(Entity::Item(h), Listener::List);
        proof {
            assert forall|i: int| 0 <= i < self.items@.len() implies self.items@[i] != h by {
                old(cx).lemma_live_is_issued(self.items@[i]);
            }
        }
        self.items.push(h);
        self.subscriptions.push(subscription);
        cx.notify(Entity::List);
        proof {
            assert(self.entries(cx) =~= old(self).entries(old(cx)).push(item@));
        }
        h
    }

    /// The list's reaction to the removal signal of the entry behind
    /// `emitter`: the entry leaves the list and is destroyed, the
    /// registrations that listened to it are released, and the list is noted
    /// for repainting. A signal from an entry that is not in the list changes
    /// nothing.
    pub fn on_delete(&mut self, emitter: Handle, signal: DeleteTodo, cx: &mut Context)
        requires
            old(self).wf(old(cx)),
        ensures
            final(self).wf(final(cx)),
            forall|g: Handle| final(cx).issued(g) <==> old(cx).issued(g),
            old(self).handles().contains(emitter) ==> Self::excised(
                old(self),
                old(cx),
                final(self),
                final(cx),
                old(self).handles().index_of(emitter),
            ),
            !old(self).handles().contains(emitter) ==> {
                &&& final(self).handles() == old(self).handles()
                &&& final(self).subscriptions() == old(self).subscriptions()
                &&& final(cx).items() == old(cx).items()
                &&& final(cx).watches() == old(cx).watches()
                &&& final(cx).pending() == old(cx).pending()
            },
    {
        match self.position(emitter) {
            Some(i) => {
                self.items.remove(i);
                self.subscriptions.remove(i);
                let _ = cx.destroy(emitter);
                cx.notify(Entity::List);
                proof {
                    assert(self.entries(cx) =~= old(self).entries(old(cx)).remove(i as int));
                }
            },
            None => {},
        }
    }

    /// What excising the `i`-th entry of the list `before` in the container
    /// `cx0` leaves behind, as the list `after` in the container `cx1`:
    /// exactly that entry has left the list and the container, the others
    /// keep their order and every field, the registrations that listened to
    /// the entry are released, and the list is noted for repainting.
    pub open spec fn excised(
        before: &TodoList,
        cx0: &Context,
        after: &TodoList,
        cx1: &Context,
        i: int,
    ) -> bool {
        let h = before.handles()[i];
        &&& 0 <= i < before.handles().len()
        &&& after.handles() == before.handles().remove(i)
        &&& after.subscriptions() == before.subscriptions().remove(i)
        &&& after.entries(cx1) == before.entries(cx0).remove(i)
        &&& cx1.items() == cx0.items().remove(h)
        &&& cx1.watches() == released(cx0.watches(), h)
        &&& cx1.pending() == cx0.pending().push(Entity::List)
    }
}

} // verus!
