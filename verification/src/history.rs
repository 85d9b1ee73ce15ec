//! Per-project undo and redo stacks of whole-project snapshots.
//!
//! Each edit pushes the project as it was before the edit onto the undo
//! stack of that project and forgets the redo stack; undo and redo move a
//! snapshot from one stack and push the project they replace onto the other.

use vstd::prelude::*;
use std::collections::HashMap;

verus! {

broadcast use vstd::std_specs::hash::group_hash_axioms;

/// The undo and redo stacks of every project, the last element of each
/// sequence being the top of its stack.
pub struct HistoryView<T> {
    pub undo: Map<i64, Seq<T>>,
    pub redo: Map<i64, Seq<T>>,
}

/// The stack that `m` holds for `id`, empty where it holds none.
pub open spec fn stack_of<T>(m: Map<i64, Seq<T>>, id: i64) -> Seq<T> {
    if m.contains_key(id) {
        m[id]
    } else {
        Seq::empty()
    }
}

/// Two histories hold the same stacks for every project.
pub open spec fn same_stacks<T>(a: HistoryView<T>, b: HistoryView<T>) -> bool {
    forall|k: i64|
        #![trigger stack_of(a.undo, k)]
        #![trigger stack_of(b.undo, k)]
        #![trigger stack_of(a.redo, k)]
        #![trigger stack_of(b.redo, k)]
        stack_of(a.undo, k) == stack_of(b.undo, k) && stack_of(a.redo, k) == stack_of(b.redo, k)
}

/// The history after an edit of project `id` whose prior state was `prev`.
pub open spec fn record_edit_spec<T>(h: HistoryView<T>, id: i64, prev: T) -> HistoryView<T> {
    HistoryView { undo: h.undo.insert(id, stack_of(h.undo, id).push(prev)), redo: h.redo.remove(id) }
}

/// Remove the top of a stack: the new map and the element taken, if any.
pub open spec fn pop_spec<T>(m: Map<i64, Seq<T>>, id: i64) -> (Map<i64, Seq<T>>, Option<T>) {
    if stack_of(m, id).len() > 0 {
        (m.insert(id, stack_of(m, id).drop_last()), Some(stack_of(m, id).last()))
    } else {
        (m, None)
    }
}

/// Put an element on top of a stack.
pub open spec fn push_spec<T>(m: Map<i64, Seq<T>>, id: i64, x: T) -> Map<i64, Seq<T>> {
    m.insert(id, stack_of(m, id).push(x))
}

/// Per-project undo/redo stacks of project snapshots.
pub struct EditHistory<T> {
    undo: HashMap<i64, Vec<T>>,
    redo: HashMap<i64, Vec<T>>,
}

/// The stacks a map of vectors holds.
pub open spec fn stacks_view<T>(m: Map<i64, Vec<T>>) -> Map<i64, Seq<T>> {
    m.map_values(|v: Vec<T>| v@)
}

impl<T> View for EditHistory<T> {
    type V = HistoryView<T>;

    closed spec fn view(&self) -> HistoryView<T> {
        HistoryView { undo: stacks_view(self.undo@), redo: stacks_view(self.redo@) }
    }
}

/// Push onto the stack of `id` in a map of vectors.
fn push_onto<T>(m: &mut HashMap<i64, Vec<T>>, id: i64, x: T)
    ensures
        stacks_view(final(m)@) == push_spec(stacks_view(old(m)@), id, x),
{
    let mut stack = match m.remove(&id) {
        Some(v) => v,
        None => Vec::new(),
    };
    stack.push(x);
    m.insert(id, stack);
    assert(stacks_view(final(m)@) =~= push_spec(stacks_view(old(m)@), id, x));
}

/// Take the top of the stack of `id` in a map of vectors.
fn pop_from<T>(m: &mut HashMap<i64, Vec<T>>, id: i64) -> (res: Option<T>)
    ensures
        (stacks_view(final(m)@), res) == pop_spec(stacks_view(old(m)@), id),
{
    match m.remove(&id) {
        Some(mut stack) => {
            let top = stack.pop();
            m.insert(id, stack);
            proof {
                if old(m)@[id]@.len() > 0 {
                    assert(stacks_view(final(m)@) =~= stacks_view(old(m)@).insert(
                        id,
                        stack_of(stacks_view(old(m)@), id).drop_last(),
                    ));
                } else {
                    assert(stacks_view(final(m)@) =~= stacks_view(old(m)@));
                }
            }
            top
        },
        None => None,
    }
}

impl<T> EditHistory<T> {
    /// A history with no stacks.
    pub fn new() -> (h: Self)
        ensures
            h@.undo == Map::<i64, Seq<T>>::empty(),
            h@.redo == Map::<i64, Seq<T>>::empty(),
    {
        let h = EditHistory { undo: HashMap::new(), redo: HashMap::new() };
        assert(h@.undo =~= Map::<i64, Seq<T>>::empty());
        assert(h@.redo =~= Map::<i64, Seq<T>>::empty());
        h
    }

    /// Record an edit of project `id`: its prior state `prev` goes on top of
    /// the undo stack and the redo stack of that project is forgotten.
    pub fn record_edit(&mut self, id: i64, prev: T)
        ensures
            final(self)@ == record_edit_spec(old(self)@, id, prev),
    {
        push_onto(&mut self.undo, id, prev);
        self.redo.remove(&id);
        assert(final(self)@.redo =~= old(self)@.redo.remove(id));
    }

    /// Take the snapshot on top of the undo stack of project `id`, if any.
    pub fn pop_undo(&mut self, id: i64) -> (res: Option<T>)
        ensures
            (final(self)@.undo, res) == pop_spec(old(self)@.undo, id),
            final(self)@.redo == old(self)@.redo,
    {
        pop_from(&mut self.undo, id)
    }

    /// Take the snapshot on top of the redo stack of project `id`, if any.
    pub fn pop_redo(&mut self, id: i64) -> (res: Option<T>)
        ensures
            (final(self)@.redo, res) == pop_spec(old(self)@.redo, id),
            final(self)@.undo == old(self)@.undo,
    {
        pop_from(&mut self.redo, id)
    }

    /// Put the state replaced by a redo on top of the undo stack of `id`.
    pub fn push_undo(&mut self, id: i64, current: T)
        ensures
            final(self)@.undo == push_spec(old(self)@.undo, id, current),
            final(self)@.redo == old(self)@.redo,
    {
        push_onto(&mut self.undo, id, current);
    }

    /// Put the state replaced by an undo on top of the redo stack of `id`.
    pub fn push_redo(&mut self, id: i64, current: T)
        ensures
            final(self)@.redo == push_spec(old(self)@.redo, id, current),
            final(self)@.undo == old(self)@.undo,
    {
        push_onto(&mut self.redo, id, current);
    }

    /// Undo an edit of project `id`: take the snapshot on top of its undo
    /// stack and push `current`, the state it replaces, onto its redo stack.
    /// With an empty undo stack nothing changes and `None` comes back.
    pub fn undo(&mut self, id: i64, current: T) -> (res: Option<T>)
        ensures
            res == pop_spec(old(self)@.undo, id).1,
            res is Some ==> final(self)@ == (HistoryView {
                undo: pop_spec(old(self)@.undo, id).0,
                redo: push_spec(old(self)@.redo, id, current),
            }),
            res is None ==> final(self)@ == old(self)@,
    {
        let res = self.pop_undo(id);
        if res.is_some() {
            self.push_redo(id, current);
        }
        res
    }

    /// Redo an undone edit of project `id`: take the snapshot on top of its
    /// redo stack and push `current`, the state it replaces, onto its undo
    /// stack. With an empty redo stack nothing changes and `None` comes back.
    pub fn redo(&mut self, id: i64, current: T) -> (res: Option<T>)
        ensures
            res == pop_spec(old(self)@.redo, id).1,
            res is Some ==> final(self)@ == (HistoryView {
                undo: push_spec(old(self)@.undo, id, current),
                redo: pop_spec(old(self)@.redo, id).0,
            }),
            res is None ==> final(self)@ == old(self)@,
    {
        let res = self.pop_redo(id);
        if res.is_some() {
            self.push_undo(id, current);
        }
        res
    }
}

/// Undo right after an edit gives back the state from before the edit.
pub proof fn lemma_undo_after_edit<T>(h: HistoryView<T>, id: i64, prev: T)
    ensures
        pop_spec(record_edit_spec(h, id, prev).undo, id).1 == Some(prev),
        forall|k: i64|
            #[trigger] stack_of(pop_spec(record_edit_spec(h, id, prev).undo, id).0, k)
                == stack_of(h.undo, k),
{
    let s = stack_of(h.undo, id);
    assert(s.push(prev).drop_last() =~= s);
}

/// An edit leaves the project with nothing to redo, and touches no other
/// project's stacks.
pub proof fn lemma_edit_clears_redo<T>(h: HistoryView<T>, id: i64, prev: T)
    ensures
        stack_of(record_edit_spec(h, id, prev).redo, id) == Seq::<T>::empty(),
        forall|k: i64|
            k != id ==> #[trigger] stack_of(record_edit_spec(h, id, prev).undo, k) == stack_of(
                h.undo,
                k,
            ) && stack_of(record_edit_spec(h, id, prev).redo, k) == stack_of(h.redo, k),
{
}

/// Undo followed by redo gives back the state that was current at the undo
/// and leaves every stack as it was before the undo.
pub proof fn lemma_redo_after_undo<T>(h: HistoryView<T>, id: i64, current: T)
    requires
        stack_of(h.undo, id).len() > 0,
    ensures
        ({
            let (undo1, taken) = pop_spec(h.undo, id);
            let redo1 = push_spec(h.redo, id, current);
            let (redo2, back) = pop_spec(redo1, id);
            let undo2 = push_spec(undo1, id, taken->0);
            &&& back == Some(current)
            &&& forall|k: i64|
                #![trigger stack_of(undo2, k)]
                #![trigger stack_of(redo2, k)]
                stack_of(undo2, k) == stack_of(h.undo, k) && stack_of(redo2, k) == stack_of(
                    h.redo,
                    k,
                )
        }),
{
    let s = stack_of(h.undo, id);
    let r = stack_of(h.redo, id);
    assert(s.drop_last().push(s.last()) =~= s);
    assert(r.push(current).drop_last() =~= r);
}

/// Redo followed by undo gives back the state that was current at the redo
/// and leaves every stack as it was before the redo.
pub proof fn lemma_undo_after_redo<T>(h: HistoryView<T>, id: i64, current: T)
    requires
        stack_of(h.redo, id).len() > 0,
    ensures
        ({
            let (redo1, taken) = pop_spec(h.redo, id);
            let undo1 = push_spec(h.undo, id, current);
            let (undo2, back) = pop_spec(undo1, id);
            let redo2 = push_spec(redo1, id, taken->0);
            &&& back == Some(current)
            &&& forall|k: i64|
                #![trigger stack_of(undo2, k)]
                #![trigger stack_of(redo2, k)]
                stack_of(undo2, k) == stack_of(h.undo, k) && stack_of(redo2, k) == stack_of(
                    h.redo,
                    k,
                )
        }),
{
    let s = stack_of(h.redo, id);
    let u = stack_of(h.undo, id);
    assert(s.drop_last().push(s.last()) =~= s);
    assert(u.push(current).drop_last() =~= u);
}

} // verus!
