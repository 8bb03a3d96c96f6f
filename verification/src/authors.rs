//! The author set: normalized author names, deduplicated by exact string
//! equality, with no ordering guarantee beyond set membership. Every
//! author strategy accumulates into one of these.

use vstd::prelude::*;
use crate::text::str_eq;
use crate::text::views_of;

verus! {

/// A set of author name strings: no two entries hold the same characters.
pub struct AuthorSet {
    pub items: Vec<String>,
}

impl AuthorSet {
    /// The names held, as a set of character sequences.
    pub open spec fn names(self) -> Set<Seq<char>> {
        views_of(self.items@).to_set()
    }

    /// Well-formedness: no duplicates.
    pub open spec fn wf(self) -> bool {
        forall|i: int, j: int|
            0 <= i < j < self.items@.len() ==> #[trigger] self.items@[i]@ != #[trigger] self.items@[j]@
    }

    /// An empty author set.
    pub fn new() -> (r: AuthorSet)
        ensures
            r.wf(),
            r.names() == Set::<Seq<char>>::empty(),
            r.items@.len() == 0,
    {
        let r = AuthorSet { items: Vec::new() };
        proof {
            assert(views_of(r.items@) =~= Seq::<Seq<char>>::empty());
            assert(r.names() =~= Set::<Seq<char>>::empty());
        }
        r
    }

    /// Whether a name is already held.
    pub fn contains_name(&self, s: &str) -> (r: bool)
        ensures
            r == self.names().contains(s@),
    {
        let n = self.items.len();
        let mut i: usize = 0;
        while i < n
            invariant
                i <= n,
                n == self.items@.len(),
                forall|j: int| 0 <= j < i ==> #[trigger] self.items@[j]@ != s@,
            decreases n - i,
        {
            if str_eq(self.items[i].as_str(), s) {
                proof {
                    let vs = views_of(self.items@);
                    assert(vs[i as int] == s@);
                    assert(vs.contains(s@));
                }
                return true;
            }
            i += 1;
        }
        proof {
            let vs = views_of(self.items@);
            if vs.contains(s@) {
                let j = choose|j: int| 0 <= j < vs.len() && vs[j] == s@;
                assert(self.items@[j]@ == s@);
                assert(false);
            }
        }
        false
    }

    /// Adds a name; a name already held is not added again.
    pub fn insert(&mut self, s: String)
        requires
            old(self).wf(),
        ensures
            final(self).wf(),
            final(self).names() == old(self).names().insert(s@),
    {
        if self.contains_name(s.as_str()) {
            proof {
                assert(final(self).names() =~= old(self).names().insert(s@));
            }
        } else {
            let ghost pre = self.items@;
            self.items.push(s);
            proof {
                assert(views_of(self.items@) =~= views_of(pre).push(s@));
                Seq::<Seq<char>>::lemma_push_to_set_commute(views_of(pre), s@);
                assert(final(self).names() =~= old(self).names().insert(s@));
                assert forall|i: int, j: int|
                    0 <= i < j < self.items@.len() implies #[trigger] self.items@[i]@
                    != #[trigger] self.items@[j]@ by {
                    if j == self.items@.len() - 1 {
                        let vs = views_of(pre);
                        assert(vs[i] == pre[i]@);
                        assert(!vs.contains(s@));
                    }
                }
            }
        }
    }

    /// The number of names held.
    pub fn len(&self) -> (r: usize)
        ensures
            r == self.items@.len(),
    {
        self.items.len()
    }

    /// Whether no name is held.
    pub fn is_empty(&self) -> (r: bool)
        ensures
            r == (self.items@.len() == 0),
    {
        self.items.len() == 0
    }
}

/// Deduplication law of the author set: membership goes by exact string
/// equality after normalization, and a well-formed set holds each
/// distinct name exactly once — however many strategies produced it.
pub proof fn lemma_author_counted_once(s: AuthorSet, x: Seq<char>)
    requires
        s.wf(),
    ensures
        s.names().contains(x) ==> views_of(s.items@).to_multiset().count(x) == 1,
        !s.names().contains(x) ==> views_of(s.items@).to_multiset().count(x) == 0,
{
    broadcast use vstd::seq_lib::group_to_multiset_ensures;

    let vs = views_of(s.items@);
    assert(vs.no_duplicates()) by {
        assert(forall|i: int, j: int|
            0 <= i < j < vs.len() ==> #[trigger] vs[i] != #[trigger] vs[j]);
    }
    vs.lemma_multiset_has_no_duplicates();
    if s.names().contains(x) {
        assert(vs.contains(x));
        assert(vs.to_multiset().count(x) > 0);
        assert(vs.to_multiset().contains(x));
    } else {
        if vs.to_multiset().count(x) > 0 {
            assert(vs.contains(x));
            assert(vs.to_set().contains(x));
        }
    }
}

} // verus!
