//! Node ids in the order of strings.

use vstd::prelude::*;
use crate::network::Network;

verus! {

/// Whether `a` comes before `b` in the order of strings: at the first place
/// where the two differ `a` has the character with the lower code point, or
/// `a` ends there and `b` does not.
pub open spec fn precedes(a: Seq<char>, b: Seq<char>) -> bool
    decreases a.len(),
{
    if b.len() == 0 {
        false
    } else if a.len() == 0 {
        true
    } else if a[0] != b[0] {
        (a[0] as u32) < (b[0] as u32)
    } else {
        precedes(a.drop_first(), b.drop_first())
    }
}

/// Whether no entry comes before an earlier one.
pub open spec fn ascending(ids: Seq<Seq<char>>) -> bool {
    forall|i: int, j: int| 0 <= i < j < ids.len() ==> !precedes(#[trigger] ids[j], #[trigger] ids[i])
}

/// The mathematical values of the strings.
pub open spec fn texts(ids: Seq<String>) -> Seq<Seq<char>> {
    ids.map_values(|id: String| id@)
}

/// `sort` of the standard library on a vector of strings: the same strings,
/// each as often as before, in ascending order. Strings are ordered by their
/// bytes, which orders them by the code points of their characters.
#[verifier::external_body]
fn sort_strings(ids: &mut Vec<String>)
    ensures
        texts(final(ids)@).to_multiset() == texts(old(ids)@).to_multiset(),
        ascending(texts(final(ids)@)),
{
    ids.sort();
}

impl<S: Copy> Network<S> {
    /// The ids of the nodes, by node index.
    pub open spec fn ids(&self) -> Seq<Seq<char>> {
        Seq::new(self@.nodes.len(), |i: int| self@.nodes[i].id)
    }

    /// The ids of the nodes in the order of strings.
    pub fn sorted_ids(&self) -> (ids: Vec<String>)
        requires
            self.wf(),
        ensures
            texts(ids@).to_multiset() == self.ids().to_multiset(),
            ascending(texts(ids@)),
    {
        let nodes = self.nodes();
        let mut ids: Vec<String> = Vec::new();
        let mut i: usize = 0;
        while i < nodes.len()
            invariant
                i <= nodes@.len(),
                nodes@.len() == self@.nodes.len(),
                forall|m: int| 0 <= m < nodes@.len() ==> (#[trigger] nodes@[m])@ == self@.nodes[m],
                ids@.len() == i,
                forall|m: int| 0 <= m < i ==> (#[trigger] ids@[m])@ == self@.nodes[m].id,
            decreases nodes@.len() - i,
        {
            ids.push(nodes[i].id.clone());
            i += 1;
        }
        proof {
            assert(texts(ids@) =~= self.ids());
        }
        sort_strings(&mut ids);
        ids
    }
}

} // verus!
