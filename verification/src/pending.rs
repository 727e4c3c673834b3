//! The files and folders queued for decoding. A path is queued at most once,
//! paths being the same as std's `Path` equality has it.

use vstd::prelude::*;

use crate::paths::{path_view, paths_equal, same_path, Component, ComponentView};

verus! {

/// Paths queued but not yet processed, in the order they were added, no two of
/// them the same path.
pub struct Pending {
    items: Vec<Vec<Component>>,
}

/// No two of the paths `s` are the same path.
pub open spec fn no_duplicates(s: Seq<Seq<ComponentView>>) -> bool {
    forall|i: int, j: int| 0 <= i < j < s.len() ==> !same_path(s[i], s[j])
}

/// One of the paths `s` is the same path as `p`.
pub open spec fn queued(s: Seq<Seq<ComponentView>>, p: Seq<ComponentView>) -> bool {
    exists|i: int| 0 <= i < s.len() && same_path(#[trigger] s[i], p)
}

impl View for Pending {
    type V = Seq<Seq<ComponentView>>;

    closed spec fn view(&self) -> Seq<Seq<ComponentView>> {
        self.items@.map_values(|p: Vec<Component>| path_view(p@))
    }
}

impl Pending {
    #[verifier::type_invariant]
    spec fn unique(self) -> bool {
        no_duplicates(self@)
    }

    /// An empty queue.
    pub fn new() -> (q: Self)
        ensures
            q@ == Seq::<Seq<ComponentView>>::empty(),
    {
        let q = Pending { items: Vec::new() };
        assert(q@ =~= Seq::<Seq<ComponentView>>::empty());
        q
    }

    /// Whether `path` is queued.
    pub fn contains(&self, path: &Vec<Component>) -> (r: bool)
        ensures
            r == queued(self@, path_view(path@)),
    {
        let n = self.items.len();
        let mut i: usize = 0;
        while i < n
            invariant
                n == self.items@.len(),
                n == self@.len(),
                0 <= i <= n,
                forall|j: int| 0 <= j < i ==> !same_path(#[trigger] self@[j], path_view(path@)),
            decreases n - i,
        {
            if paths_equal(&self.items[i], path) {
                assert(same_path(self@[i as int], path_view(path@)));
                return true;
            }
            i += 1;
        }
        false
    }

    /// Queue `path` unless it is queued already; returns whether it was added.
    pub fn add(&mut self, path: Vec<Component>) -> (added: bool)
        ensures
            added == !queued(old(self)@, path_view(path@)),
            final(self)@ == if added {
                old(self)@.push(path_view(path@))
            } else {
                old(self)@
            },
            no_duplicates(final(self)@),
    {
        proof {
            use_type_invariant(&*self);
        }
        if self.contains(&path) {
            return false;
        }
        let ghost before = self@;
        let ghost pv = path_view(path@);
        let mut items = Vec::new();
        std::mem::swap(&mut items, &mut self.items);
        items.push(path);
        assert(items@.map_values(|p: Vec<Component>| path_view(p@)) =~= before.push(pv));
        assert(no_duplicates(before.push(pv))) by {
            assert forall|i: int, j: int| 0 <= i < j < before.push(pv).len() implies !same_path(
                before.push(pv)[i],
                before.push(pv)[j],
            ) by {
                if j == before.len() {
                    assert(before.push(pv)[i] == before[i]);
                }
            }
        }
        self.items = items;
        proof {
            use_type_invariant(&*self);
        }
        true
    }

    /// Empty the queue.
    pub fn clear(&mut self)
        ensures
            final(self)@ == Seq::<Seq<ComponentView>>::empty(),
    {
        self.items = Vec::new();
        assert(self@ =~= Seq::<Seq<ComponentView>>::empty());
    }

    /// Number of queued paths.
    pub fn len(&self) -> (n: usize)
        ensures
            n == self@.len(),
    {
        self.items.len()
    }

    /// Whether nothing is queued.
    pub fn is_empty(&self) -> (r: bool)
        ensures
            r == (self@.len() == 0),
    {
        self.items.len() == 0
    }

    /// The `i`-th queued path.
    pub fn get(&self, i: usize) -> (p: &Vec<Component>)
        requires
            i < self@.len(),
        ensures
            path_view(p@) == self@[i as int],
    {
        &self.items[i]
    }
}

} // verus!
