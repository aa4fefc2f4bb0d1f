//! Sets of ids.

use vstd::prelude::*;

use crate::text;

verus! {

/// A set of ids, kept in the order of their arrival.
#[derive(Debug)]
pub struct IdSet {
    pub ids: Vec<String>,
}

impl IdSet {
    /// No id is listed twice.
    pub open spec fn wf(self) -> bool {
        text::texts_of(self.ids@).no_duplicates()
    }

    pub open spec fn view(&self) -> Set<Seq<char>> {
        text::texts_of(self.ids@).to_set()
    }

    pub fn new() -> (set: IdSet)
        ensures
            set.wf(),
            set@ == Set::<Seq<char>>::empty(),
    {
        let set = IdSet { ids: Vec::new() };
        assert(set@ =~= Set::<Seq<char>>::empty());
        set
    }

    pub fn contains(&self, id: &str) -> (found: bool)
        ensures
            found == self@.contains(id@),
    {
        let at = text::position_of(&self.ids, id);
        proof {
            let texts = text::texts_of(self.ids@);
            if at is Some {
                assert(texts[at->0 as int] == id@);
            }
            if texts.contains(id@) {
                let i = choose|i: int| 0 <= i < texts.len() && texts[i] == id@;
                assert(self.ids@[i]@ == id@);
            }
        }
        at.is_some()
    }

    pub fn len(&self) -> (count: usize)
        requires
            self.wf(),
        ensures
            count == self@.len(),
    {
        proof {
            text::texts_of(self.ids@).unique_seq_to_set();
        }
        self.ids.len()
    }

    pub fn is_empty(&self) -> (empty: bool)
        ensures
            empty == (self@ == Set::<Seq<char>>::empty()),
    {
        proof {
            let texts = text::texts_of(self.ids@);
            if self.ids@.len() > 0 {
                assert(texts.contains(texts[0]));
                assert(self@.contains(texts[0]));
            } else {
                assert(self@ =~= Set::<Seq<char>>::empty());
            }
        }
        self.ids.is_empty()
    }

    pub fn insert(&mut self, id: String)
        requires
            old(self).wf(),
        ensures
            final(self).wf(),
            final(self)@ == old(self)@.insert(id@),
    {
        if !self.contains(id.as_str()) {
            let ghost before = text::texts_of(self.ids@);
            self.ids.push(id);
            proof {
                let after = text::texts_of(self.ids@);
                assert(after =~= before.push(id@));
                assert forall|t: Seq<char>| after.contains(t) <==> before.contains(t) || t
                    == id@ by {
                    if before.contains(t) {
                        let i = choose|i: int| 0 <= i < before.len() && before[i] == t;
                        assert(after[i] == t);
                    }
                    assert(after[before.len() as int] == id@);
                }
            }
        }
        assert(self@ =~= old(self)@.insert(id@));
    }

    pub fn remove(&mut self, id: &str)
        requires
            old(self).wf(),
        ensures
            final(self).wf(),
            final(self)@ == old(self)@.remove(id@),
    {
        let ghost before = text::texts_of(self.ids@);
        match text::position_of(&self.ids, id) {
            Some(at) => {
                let _ = self.ids.remove(at);
                proof {
                    let after = text::texts_of(self.ids@);
                    assert(after =~= before.remove(at as int));
                    assert(before[at as int] == id@);
                    assert forall|t: Seq<char>| after.contains(t) <==> before.contains(t) && t
                        != id@ by {
                        if before.contains(t) && t != id@ {
                            let i = choose|i: int| 0 <= i < before.len() && before[i] == t;
                            if i < at {
                                assert(after[i] == t);
                            } else {
                                assert(after[i - 1] == t);
                            }
                        }
                        if after.contains(t) {
                            let i = choose|i: int| 0 <= i < after.len() && after[i] == t;
                            if i < at {
                                assert(before[i] == t);
                            } else {
                                assert(before[i + 1] == t);
                            }
                        }
                    }
                }
            },
            None => {
                proof {
                    if before.contains(id@) {
                        let i = choose|i: int|
                            0 <= i < before.len() && before[i] == id@;
                        assert(self.ids@[i]@ == id@);
                    }
                }
            },
        }
        assert(self@ =~= old(self)@.remove(id@));
    }

    pub fn clear(&mut self)
        ensures
            final(self).wf(),
            final(self)@ == Set::<Seq<char>>::empty(),
    {
        self.ids.clear();
        assert(self@ =~= Set::<Seq<char>>::empty());
    }
}

/// An id that is inserted is there, one that is removed is not, and every other id
/// stays as it was.
pub proof fn law_ids_come_and_go(
    grown: &mut IdSet,
    shrunk: &mut IdSet,
    cleared: &mut IdSet,
    id: String,
    gone: &str,
    other: Seq<char>,
)
    ensures
        call_ensures(IdSet::insert, (grown, id), ()) ==> {
            &&& final(grown)@.contains(id@)
            &&& other != id@ ==> (final(grown)@.contains(other) <==> old(grown)@.contains(other))
        },
        call_ensures(IdSet::remove, (shrunk, gone), ()) ==> {
            &&& !final(shrunk)@.contains(gone@)
            &&& other != gone@ ==> (final(shrunk)@.contains(other) <==> old(shrunk)@.contains(
                other,
            ))
        },
        call_ensures(IdSet::clear, (cleared,), ()) ==> !final(cleared)@.contains(other),
{
}

/// An id is found exactly where it is listed.
pub proof fn law_listed_ids_are_found(set: IdSet, id: &str, found: bool)
    requires
        call_ensures(IdSet::contains, (&set, id), found),
    ensures
        found <==> exists|i: int| 0 <= i < set.ids@.len() && (#[trigger] set.ids@[i])@ == id@,
{
    let texts = text::texts_of(set.ids@);
    if found {
        assert(texts.contains(id@));
        let i = texts.index_of(id@);
        assert(set.ids@[i]@ == id@);
    }
    if exists|i: int| 0 <= i < set.ids@.len() && (#[trigger] set.ids@[i])@ == id@ {
        let i = choose|i: int| 0 <= i < set.ids@.len() && (#[trigger] set.ids@[i])@ == id@;
        assert(texts[i] == id@);
    }
}

} // verus!
