//! Finite sets of names.

use crate::text::same_text;
use vstd::prelude::*;

verus! {

/// A finite set of names, held in a vector: vstd specifies `HashSet` only
/// for key types that obey its key model, which `String` is not known to.
#[derive(Debug)]
pub struct NameSet {
    /// The members, in the order in which they came; a member may occur more
    /// than once.
    pub names: Vec<String>,
}

/// The set of the names among the first `n` of `names`.
pub open spec fn names_upto(names: Seq<String>, n: int) -> Set<Seq<char>> {
    Set::new(|s: Seq<char>| exists|i: int| 0 <= i < n && i < names.len() && #[trigger] names[i]@ == s)
}

impl View for NameSet {
    type V = Set<Seq<char>>;

    open spec fn view(&self) -> Set<Seq<char>> {
        names_upto(self.names@, self.names@.len() as int)
    }
}

impl NameSet {
    /// The empty set.
    pub fn new() -> (r: NameSet)
        ensures
            r@ =~= Set::<Seq<char>>::empty(),
    {
        NameSet { names: Vec::new() }
    }

    /// Whether the set has no member.
    pub fn is_empty(&self) -> (r: bool)
        ensures
            r == (self@ =~= Set::<Seq<char>>::empty()),
    {
        let r = self.names.len() == 0;
        proof {
            if !r {
                assert(self.names@[0]@ == self.names@[0]@);
                assert(self@.contains(self.names@[0]@));
            }
        }
        r
    }

    /// Whether `name` is a member.
    pub fn contains(&self, name: &str) -> (r: bool)
        ensures
            r == self@.contains(name@),
    {
        let mut i: usize = 0;
        while i < self.names.len()
            invariant
                i <= self.names@.len(),
                !names_upto(self.names@, i as int).contains(name@),
            decreases self.names@.len() - i,
        {
            if same_text(self.names[i].as_str(), name) {
                assert(self.names@[i as int]@ == name@);
                return true;
            }
            i = i + 1;
        }
        false
    }

    /// Makes `name` a member.
    pub fn insert(&mut self, name: String)
        ensures
            final(self)@ =~= old(self)@.insert(name@),
    {
        let ghost before = self.names@;
        self.names.push(name);
        proof {
            let after = self.names@;
            assert(after == before.push(name));
            assert forall|s: Seq<char>| #[trigger]
                self@.contains(s) <==> old(self)@.insert(name@).contains(s) by {
                if self@.contains(s) {
                    let i = choose|i: int| 0 <= i < after.len() && #[trigger] after[i]@ == s;
                    if i < before.len() {
                        assert(before[i]@ == s);
                    }
                }
                if old(self)@.contains(s) {
                    let i = choose|i: int| 0 <= i < before.len() && #[trigger] before[i]@ == s;
                    assert(after[i]@ == s);
                }
                if s == name@ {
                    assert(after[before.len() as int]@ == s);
                }
            }
        }
    }
}

} // verus!
