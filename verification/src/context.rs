use vstd::prelude::*;
use crate::arena::{Arena, Handle};
use crate::item::TodoItem;

verus! {

/// Names a stateful unit, as the source of a signal or in a repaint
/// notification.
#[derive(Clone, Copy, Debug, PartialEq, Eq, Structural)]
pub enum Entity {
    /// The list of entries.
    List,
    /// The draft editor.
    Editor,
    /// One entry of the list.
    Item(Handle),
}

/// Who reacts to a signal.
#[derive(Clone, Copy, Debug, PartialEq, Eq, Structural)]
pub enum Listener {
    /// The list, which excises the entry that asks to be removed.
    List,
    /// The root controller, which handles the events of the editor.
    App,
}

/// One registration: `listener` is told whenever `source` sends a signal.
#[derive(Clone, Copy, Debug, PartialEq, Eq, Structural)]
pub struct Watch {
    pub source: Entity,
    pub listener: Listener,
}

/// The token of one registration. Cancelling it stops the delivery.
#[derive(Clone, Copy, Debug, PartialEq, Eq, Structural)]
pub struct Subscription {
    token: Handle,
}

/// The entity container: it owns the state of every entry, knows who listens
/// to whom, and collects the repaint notifications that mutations
/// give rise to until the renderer fetches them.
pub struct Context {
    items: Arena<TodoItem>,
    watches: Arena<Watch>,
    dirty: Vec<Entity>,
}

/// The registrations of `watches` that remain once those for the signals of
/// the entry `h` are released.
pub open spec fn released(watches: Map<Subscription, Watch>, h: Handle) -> Map<
    Subscription,
    Watch,
> {
    Map::new(
        |s: Subscription| watches.dom().contains(s) && watches[s].source != Entity::Item(h),
        |s: Subscription| watches[s],
    )
}

impl Context {
    /// The live entries, each under its handle.
    pub closed spec fn items(&self) -> Map<Handle, TodoItem> {
        self.items@
    }

    /// Whether `h` was handed out for an entry at some time, alive or not.
    pub closed spec fn issued(&self, h: Handle) -> bool {
        self.items.issued(h)
    }

    /// The registrations in force.
    pub closed spec fn watches(&self) -> Map<Subscription, Watch> {
        Map::new(
            |s: Subscription| self.watches@.dom().contains(s.token),
            |s: Subscription| self.watches@[s.token],
        )
    }

    /// The repaint notifications not yet fetched, oldest first.
    pub closed spec fn pending(&self) -> Seq<Entity> {
        self.dirty@
    }

    /// Whether `entity` is there to send signals: the list and the editor
    /// always, an entry while it is alive.
    pub open spec fn alive(&self, entity: Entity) -> bool {
        match entity {
            Entity::Item(h) => self.items().dom().contains(h),
            _ => true,
        }
    }

    /// No registration listens to a destroyed entry.
    pub open spec fn wf(&self) -> bool {
        forall|s: Subscription| #[trigger]
            self.watches().dom().contains(s) ==> self.alive(self.watches()[s].source)
    }

    /// Every live handle has been handed out.
    pub proof fn lemma_live_is_issued(&self, h: Handle)
        requires
            self.items().dom().contains(h),
        ensures
            self.issued(h),
    {
        self.items.lemma_live_is_issued(h);
    }

    /// A container without entries, registrations or notifications.
    pub fn new() -> (cx: Self)
        ensures
            cx.wf(),
            cx.items() == Map::<Handle, TodoItem>::empty(),
            cx.watches() == Map::<Subscription, Watch>::empty(),
            cx.pending() == Seq::<Entity>::empty(),
            forall|h: Handle| !cx.issued(h),
    {
        Context { items: Arena::new(), watches: Arena::new(), dirty: Vec::new() }
    }

    /// Takes ownership of `item` as a new entity and returns its handle, one
    /// that was never handed out before.
    pub fn create(&mut self, item: TodoItem) -> (h: Handle)
        requires
            old(self).wf(),
        ensures
            final(self).wf(),
            !old(self).issued(h),
            final(self).items() == old(self).items().insert(h, item),
            forall|g: Handle| final(self).issued(g) <==> old(self).issued(g) || g == h,
            final(self).watches() == old(self).watches(),
            final(self).pending() == old(self).pending(),
    {
        self.items.create(item)
    }

    /// Whether the entry that `h` was handed out for is alive.
    pub fn contains(&self, h: Handle) -> (live: bool)
        ensures
            live == self.items().dom().contains(h),
    {
        self.items.contains(h)
    }

    /// The entry behind `h`, or `None` where it is gone.
    pub fn get(&self, h: Handle) -> (item: Option<&TodoItem>)
        ensures
            match item {
                Some(state) => self.items().dom().contains(h) && *state == self.items()[h],
                None => !self.items().dom().contains(h),
            },
    {
        self.items.get(h)
    }

    /// The live entry behind `h`.
    pub fn read(&self, h: Handle) -> (item: &TodoItem)
        requires
            self.items().dom().contains(h),
        ensures
            *item == self.items()[h],
    {
        self.items.read(h)
    }

    /// Applies the transition `f` to the live entry behind `h`, then notes
    /// that the entry wants repainting.
    pub fn update<F: FnOnce(TodoItem) -> TodoItem>(&mut self, h: Handle, f: F)
        requires
            old(self).wf(),
            old(self).items().dom().contains(h),
            f.requires((old(self).items()[h],)),
        ensures
            final(self).wf(),
            final(self).items().dom() == old(self).items().dom(),
            f.ensures((old(self).items()[h],), final(self).items()[h]),
            forall|g: Handle|
                g != h && old(self).items().dom().contains(g) ==> final(self).items()[g] == old(self).items()[g],
            forall|g: Handle| final(self).issued(g) <==> old(self).issued(g),
            final(self).watches() == old(self).watches(),
            final(self).pending() == old(self).pending().push(Entity::Item(h)),
    {
        self.items.update(h, f);
        self.dirty.push(Entity::Item(h));
        assert forall|s: Subscription| #[trigger] self.watches().dom().contains(s) implies self.alive(
            self.watches()[s].source,
        ) by {
            assert(old(self).watches().dom().contains(s));
        }
    }

    /// Registers `listener` for the signals of `source`.
    pub fn subscribe(&mut self, source: Entity, listener: Listener) -> (subscription: Subscription)
        requires
            old(self).wf(),
            old(self).alive(source),
        ensures
            final(self).wf(),
            !old(self).watches().dom().contains(subscription),
            final(self).watches() == old(self).watches().insert(
                subscription,
                Watch { source, listener },
            ),
            final(self).items() == old(self).items(),
            forall|g: Handle| final(self).issued(g) <==> old(self).issued(g),
            final(self).pending() == old(self).pending(),
    {
        let token = self.watches.create(Watch { source, listener });
        let subscription = Subscription { token };
        proof {
            old(self).watches.lemma_unissued_is_dead(token);
            assert(self.watches() =~= old(self).watches().insert(
                subscription,
                Watch { source, listener },
            ));
        }
        subscription
    }

    /// Ends the registration `subscription`, if it is still in force.
    pub fn cancel(&mut self, subscription: Subscription)
        requires
            old(self).wf(),
        ensures
            final(self).wf(),
            final(self).watches() == old(self).watches().remove(subscription),
            final(self).items() == old(self).items(),
            forall|g: Handle| final(self).issued(g) <==> old(self).issued(g),
            final(self).pending() == old(self).pending(),
    {
        if self.watches.contains(subscription.token) {
            self.watches.remove(subscription.token);
        }
        assert(self.watches() =~= old(self).watches().remove(subscription));
    }

    /// The registration `subscription`, or `None` where it is no longer in
    /// force.
    pub fn watch(&self, subscription: Subscription) -> (watch: Option<Watch>)
        ensures
            match watch {
                Some(w) => self.watches().dom().contains(subscription) && w
                    == self.watches()[subscription],
                None => !self.watches().dom().contains(subscription),
            },
    {
        match self.watches.get(subscription.token) {
            Some(w) => Some(*w),
            None => None,
        }
    }

    /// The registrations that listen to `target`, each once.
    pub fn subscribers(&self, target: Entity) -> (found: Vec<Subscription>)
        ensures
            found@.no_duplicates(),
            forall|s: Subscription|
                found@.contains(s) <==> self.watches().dom().contains(s)
                    && self.watches()[s].source == target,
    {
        let tokens = self.watches.handles();
        let mut found: Vec<Subscription> = Vec::new();
        let mut i: usize = 0;
        while i < tokens.len()
            invariant
                i <= tokens@.len(),
                tokens@.no_duplicates(),
                forall|t: Handle| tokens@.contains(t) <==> self.watches@.dom().contains(t),
                found@.no_duplicates(),
                forall|k: int|
                    0 <= k < found@.len() ==> self.watches@.dom().contains(
                        (#[trigger] found@[k]).token,
                    ) && self.watches@[found@[k].token].source == target,
                forall|k: int, j: int|
                    0 <= k < found@.len() && i <= j < tokens@.len() ==> (#[trigger] found@[k]).token
                        != #[trigger] tokens@[j],
                forall|j: int|
                    0 <= j < i && self.watches@[#[trigger] tokens@[j]].source == target
                        ==> found@.contains(Subscription { token: tokens@[j] }),
            decreases tokens@.len() - i,
        {
            let token = tokens[i];
            assert(tokens@.contains(token));
            if self.watches.read(token).source == target {
                let ghost before = found@;
                found.push(Subscription { token });
                assert(found@[before.len() as int] == Subscription { token });
                assert forall|j: int|
                    0 <= j < i + 1 && self.watches@[#[trigger] tokens@[j]].source
                        == target implies found@.contains(Subscription { token: tokens@[j] }) by {
                    if j < i {
                        let s = Subscription { token: tokens@[j] };
                        let k = choose|k: int| 0 <= k < before.len() && before[k] == s;
                        assert(found@[k] == s);
                    }
                }
            }
            i += 1;
        }
        proof {
            assert forall|s: Subscription|
                found@.contains(s) <==> self.watches().dom().contains(s)
                    && self.watches()[s].source == target by {
                if self.watches().dom().contains(s) && self.watches()[s].source == target {
                    assert(tokens@.contains(s.token));
                    let j = choose|j: int| 0 <= j < tokens@.len() && tokens@[j] == s.token;
                    assert(found@.contains(Subscription { token: tokens@[j] }));
                }
            }
        }
        found
    }

    /// Destroys the live entry behind `h` and returns its last state. Every
    /// registration that listened to it is released with it.
    pub fn destroy(&mut self, h: Handle) -> (last: TodoItem)
        requires
            old(self).wf(),
            old(self).items().dom().contains(h),
        ensures
            final(self).wf(),
            last == old(self).items()[h],
            final(self).items() == old(self).items().remove(h),
            final(self).watches() == released(old(self).watches(), h),
            forall|g: Handle| final(self).issued(g) <==> old(self).issued(g),
            final(self).pending() == old(self).pending(),
    {
        let listeners = self.subscribers(Entity::Item(h));
        let mut i: usize = 0;
        while i < listeners.len()
            invariant
                i <= listeners@.len(),
                self.wf(),
                self.items() == old(self).items(),
                self.pending() == old(self).pending(),
                forall|g: Handle| self.issued(g) <==> old(self).issued(g),
                forall|s: Subscription|
                    listeners@.contains(s) <==> old(self).watches().dom().contains(s)
                        && old(self).watches()[s].source == Entity::Item(h),
                forall|s: Subscription|
                    self.watches().dom().contains(s) <==> old(self).watches().dom().contains(s)
                        && !listeners@.take(i as int).contains(s),
                forall|s: Subscription| #[trigger]
                    self.watches().dom().contains(s) ==> self.watches()[s] == old(self).watches()[s],
            decreases listeners@.len() - i,
        {
            self.cancel(listeners[i]);
            proof {
                let done = listeners@.take(i as int);
                let more = listeners@.take(i + 1);
                assert forall|s: Subscription|
                    self.watches().dom().contains(s) <==> old(self).watches().dom().contains(s)
                        && !more.contains(s) by {
                    if more.contains(s) {
                        let k = choose|k: int| 0 <= k < more.len() && more[k] == s;
                        if k < i {
                            assert(done.contains(s));
                        }
                    }
                    if done.contains(s) {
                        let k = choose|k: int| 0 <= k < done.len() && done[k] == s;
                        assert(more[k] == s);
                    }
                    if s == listeners@[i as int] {
                        assert(more[i as int] == s);
                    }
                }
            }
            i += 1;
        }
        assert(listeners@.take(i as int) =~= listeners@);
        let last = self.items.remove(h);
        last
    }

    /// Notes that `entity` has changed and wants repainting.
    pub fn notify(&mut self, entity: Entity)
        ensures
            final(self).pending() == old(self).pending().push(entity),
            final(self).items() == old(self).items(),
            final(self).watches() == old(self).watches(),
            forall|g: Handle| final(self).issued(g) <==> old(self).issued(g),
    {
        self.dirty.push(entity);
    }

    /// Hands the collected repaint notifications to the renderer, oldest
    /// first, and starts collecting anew.
    pub fn take_notifications(&mut self) -> (notes: Vec<Entity>)
        ensures
            notes@ == old(self).pending(),
            final(self).pending() == Seq::<Entity>::empty(),
            final(self).items() == old(self).items(),
            final(self).watches() == old(self).watches(),
            forall|g: Handle| final(self).issued(g) <==> old(self).issued(g),
    {
        let mut notes: Vec<Entity> = Vec::new();
        std::mem::swap(&mut notes, &mut self.dirty);
        notes
    }
}

} // verus!
