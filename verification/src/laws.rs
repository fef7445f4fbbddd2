use vstd::prelude::*;
use crate::app::TodoApp;
use crate::arena::Handle;
use crate::context::Context;
use crate::item::ItemView;
use crate::list::TodoList;

verus! {

/// No two of the entries share an identifier.
pub open spec fn ids_distinct(entries: Seq<ItemView>) -> bool {
    forall|i: int, j: int|
        0 <= i < j < entries.len() ==> (#[trigger] entries[i]).id != (#[trigger] entries[j]).id
}

/// Entries stand in the order in which they were added. Let entry
/// `added[k]` be appended to the list `lists[k]` in the container `cxs[k]`,
/// which gives `lists[k + 1]` in `cxs[k + 1]`. Then the last list shows the
/// entries of the first, followed by the added ones in the order of the
/// calls; the new entries have handles that the first container had never
/// handed out, and no two of them have the same handle.
pub proof fn lemma_adds_keep_call_order(
    lists: Seq<TodoList>,
    cxs: Seq<Context>,
    added: Seq<ItemView>,
)
    requires
        lists.len() == added.len() + 1,
        cxs.len() == added.len() + 1,
        forall|k: int|
            #![trigger added[k]]
            0 <= k < added.len() ==> TodoList::appended(
                &lists[k],
                &cxs[k],
                &lists[k + 1],
                &cxs[k + 1],
                added[k],
            ),
    ensures
        lists.last().entries(&cxs.last()) == lists[0].entries(&cxs[0]) + added,
        lists.last().handles().len() == lists[0].handles().len() + added.len(),
        lists.last().handles().take(lists[0].handles().len() as int) == lists[0].handles(),
        forall|g: Handle|
            cxs.last().issued(g) <==> cxs[0].issued(g) || exists|k: int|
                lists[0].handles().len() <= k < lists.last().handles().len()
                    && lists.last().handles()[k] == g,
        forall|k: int|
            lists[0].handles().len() <= k < lists.last().handles().len() ==> !cxs[0].issued(
                #[trigger] lists.last().handles()[k],
            ),
        forall|j: int, k: int|
            lists[0].handles().len() <= j < k < lists.last().handles().len()
                ==> lists.last().handles()[j] != lists.last().handles()[k],
    decreases added.len(),
{
    let n = added.len() as int;
    let base = lists[0].handles().len() as int;
    if n == 0 {
        assert(lists.last().handles().take(base) =~= lists[0].handles());
    } else {
        let lists0 = lists.drop_last();
        let cxs0 = cxs.drop_last();
        let added0 = added.drop_last();
        lemma_adds_keep_call_order(lists0, cxs0, added0);
        assert(TodoList::appended(&lists[n - 1], &cxs[n - 1], &lists[n], &cxs[n], added[n - 1]));
        let prev = lists[n - 1].handles();
        let last = lists[n].handles();
        let h = last.last();
        assert forall|g: Handle|
            cxs.last().issued(g) <==> cxs[0].issued(g) || exists|k: int|
                base <= k < last.len() && last[k] == g by {
            if cxs.last().issued(g) {
                if g == h {
                    assert(base <= last.len() - 1 < last.len() && last[last.len() - 1] == g);
                } else if !cxs[0].issued(g) {
                    let k = choose|k: int| base <= k < prev.len() && prev[k] == g;
                    assert(base <= k < last.len() && last[k] == g);
                }
            }
            if exists|k: int| base <= k < last.len() && last[k] == g {
                let k = choose|k: int| base <= k < last.len() && last[k] == g;
                if k < prev.len() {
                    assert(base <= k < prev.len() && prev[k] == g);
                }
            }
        }
    }
}

/// Identifiers stay apart as long as the draws do. Where no two entries of
/// a list share an identifier and a new entry's identifier differs from all
/// of theirs, no two entries share one after the new entry is appended.
/// (Nothing makes two random draws differ: that is why it is asked for.)
pub proof fn lemma_fresh_id_keeps_ids_distinct(before: Seq<ItemView>, entry: ItemView)
    requires
        ids_distinct(before),
        forall|i: int| 0 <= i < before.len() ==> (#[trigger] before[i]).id != entry.id,
    ensures
        ids_distinct(before.push(entry)),
{
}

/// A draft that is set and then submitted ends up as the last entry. After
/// the draft is set to `draft` it reads `draft`; after the submit it reads
/// empty, and the list is the one from before the edit with one entry more,
/// which holds `draft` and is not done.
pub proof fn lemma_edit_then_commit(s0: TodoApp, s1: TodoApp, s2: TodoApp, draft: Seq<char>)
    requires
        TodoApp::edited(&s0, &s1, draft),
        TodoApp::committed(&s1, &s2),
    ensures
        s1.text() == draft,
        s2.text() == Seq::<char>::empty(),
        s2.entries() == s0.entries().push(
            ItemView { id: s2.entries().last().id, title: draft, completed: false },
        ),
{
}

/// What is deleted is one entry, and the rest is as it was. After the entry
/// behind `h` is removed the list is one entry shorter, every entry that
/// stood before it stands where it stood, and every entry that stood behind
/// it stands one place further up, each with all its fields.
pub proof fn lemma_delete_leaves_others(s0: TodoApp, s1: TodoApp, h: Handle)
    requires
        TodoApp::deleted(&s0, &s1, h),
    ensures
        s1.entries().len() + 1 == s0.entries().len(),
        forall|j: int|
            0 <= j < s0.handles().index_of(h) ==> #[trigger] s1.entries()[j] == s0.entries()[j],
        forall|j: int|
            s0.handles().index_of(h) <= j < s1.entries().len() ==> #[trigger] s1.entries()[j]
                == s0.entries()[j + 1],
{
}

/// Setting the completion flag of one entry leaves the flag of every other
/// entry, and the identifier and text of every entry, as it was.
pub proof fn lemma_toggle_touches_one_flag(s0: TodoApp, s1: TodoApp, h: Handle, new_value: bool)
    requires
        TodoApp::toggled(&s0, &s1, h, new_value),
    ensures
        s1.entries().len() == s0.entries().len(),
        forall|j: int|
            0 <= j < s0.entries().len() ==> (#[trigger] s1.entries()[j]).id == s0.entries()[j].id
                && s1.entries()[j].title == s0.entries()[j].title,
        forall|j: int|
            0 <= j < s0.entries().len() && j != s0.handles().index_of(h)
                ==> (#[trigger] s1.entries()[j]).completed == s0.entries()[j].completed,
        s1.entries()[s0.handles().index_of(h)].completed == new_value,
{
    let i = s0.handles().index_of(h);
    assert forall|j: int| 0 <= j < s0.entries().len() implies (#[trigger] s1.entries()[j]).id
        == s0.entries()[j].id && s1.entries()[j].title == s0.entries()[j].title by {
        if j != i {
            assert(s1.entries()[j] == s0.entries()[j]);
        }
    }
}

} // verus!
