//! Live terminal runtimes, by terminal.

use vstd::prelude::*;

use crate::text;

verus! {

/// The live runtimes of a server's terminals. `R` is a runtime.
#[derive(Debug)]
pub struct TerminalRuntimeRegistry<R> {
    pub runtimes: Vec<(String, R)>,
}

impl<R> TerminalRuntimeRegistry<R> {
    /// No terminal has two runtimes.
    pub open spec fn wf(self) -> bool {
        forall|i: int, j: int|
            0 <= i < j < self.runtimes@.len() ==> self.runtimes@[i].0@ != self.runtimes@[j].0@
    }

    pub open spec fn has_at(self, terminal_id: Seq<char>, i: int) -> bool {
        0 <= i < self.runtimes@.len() && self.runtimes@[i].0@ == terminal_id
    }

    pub open spec fn view(&self) -> Map<Seq<char>, R> {
        Map::new(
            |terminal_id: Seq<char>| exists|i: int| self.has_at(terminal_id, i),
            |terminal_id: Seq<char>|
                self.runtimes@[choose|i: int| self.has_at(terminal_id, i)].1,
        )
    }

    proof fn lemma_value_at(self, i: int)
        requires
            self.wf(),
            0 <= i < self.runtimes@.len(),
        ensures
            self@.contains_key(self.runtimes@[i].0@),
            self@[self.runtimes@[i].0@] == self.runtimes@[i].1,
    {
        let terminal_id = self.runtimes@[i].0@;
        assert(self.has_at(terminal_id, i));
        let j = choose|j: int| self.has_at(terminal_id, j);
        assert(self.has_at(terminal_id, j));
        assert(i == j);
    }

    pub fn new() -> (registry: TerminalRuntimeRegistry<R>)
        ensures
            registry.wf(),
            registry@ == Map::<Seq<char>, R>::empty(),
    {
        let registry = TerminalRuntimeRegistry { runtimes: Vec::new() };
        assert(registry@ =~= Map::<Seq<char>, R>::empty());
        registry
    }

    fn find(&self, terminal_id: &str) -> (at: Option<usize>)
        requires
            self.wf(),
        ensures
            at is Some <==> self@.contains_key(terminal_id@),
            at matches Some(i) ==> self.has_at(terminal_id@, i as int) && self@[terminal_id@]
                == self.runtimes@[i as int].1,
    {
        let mut i: usize = 0;
        while i < self.runtimes.len()
            invariant
                self.wf(),
                i <= self.runtimes.len(),
                forall|j: int| 0 <= j < i ==> self.runtimes@[j].0@ != terminal_id@,
            decreases self.runtimes.len() - i,
        {
            if text::same_text(self.runtimes[i].0.as_str(), terminal_id) {
                proof {
                    self.lemma_value_at(i as int);
                }
                return Some(i);
            }
            i = i + 1;
        }
        None
    }

    /// The runtime of a terminal.
    pub fn get(&self, terminal_id: &str) -> (runtime: Option<&R>)
        requires
            self.wf(),
        ensures
            runtime is Some <==> self@.contains_key(terminal_id@),
            runtime matches Some(runtime) ==> *runtime == self@[terminal_id@],
    {
        match self.find(terminal_id) {
            Some(i) => Some(&self.runtimes[i].1),
            None => None,
        }
    }

    /// The live runtimes, in no particular order.
    pub fn values(&self) -> (values: Vec<&R>)
        ensures
            values@.len() == self.runtimes@.len(),
            forall|i: int| 0 <= i < values@.len() ==> *values@[i] == self.runtimes@[i].1,
    {
        let mut values: Vec<&R> = Vec::new();
        let mut i: usize = 0;
        while i < self.runtimes.len()
            invariant
                i <= self.runtimes@.len(),
                values@.len() == i,
                forall|k: int| 0 <= k < i ==> *values@[k] == self.runtimes@[k].1,
            decreases self.runtimes@.len() - i,
        {
            values.push(&self.runtimes[i].1);
            i = i + 1;
        }
        values
    }

    /// How many terminals are live.
    pub fn len(&self) -> (count: usize)
        requires
            self.wf(),
        ensures
            count == self@.dom().len(),
            self@.dom().finite(),
    {
        proof {
            let ids = self.runtimes@.map_values(|entry: (String, R)| entry.0@);
            assert(ids.no_duplicates()) by {
                assert forall|i: int, j: int| 0 <= i < ids.len() && 0 <= j < ids.len() && i != j
                    implies ids[i] != ids[j] by {
                    if i < j {
                        assert(self.runtimes@[i].0@ != self.runtimes@[j].0@);
                    } else {
                        assert(self.runtimes@[j].0@ != self.runtimes@[i].0@);
                    }
                }
            }
            ids.unique_seq_to_set();
            assert forall|id: Seq<char>| ids.to_set().contains(id) == #[trigger] self@.dom().contains(
                id,
            ) by {
                if ids.contains(id) {
                    let i = choose|i: int| 0 <= i < ids.len() && ids[i] == id;
                    assert(self.has_at(id, i));
                }
                if self@.dom().contains(id) {
                    let i = choose|i: int| self.has_at(id, i);
                    assert(ids[i] == id);
                }
            }
            assert(self@.dom() =~= ids.to_set());
        }
        self.runtimes.len()
    }

    /// Give a terminal a runtime; returns the one it had.
    pub fn insert(&mut self, terminal_id: String, runtime: R) -> (replaced: Option<R>)
        requires
            old(self).wf(),
        ensures
            final(self).wf(),
            final(self)@ == old(self)@.insert(terminal_id@, runtime),
            replaced == if old(self)@.contains_key(terminal_id@) {
                Some(old(self)@[terminal_id@])
            } else {
                None
            },
    {
        let replaced = self.remove(terminal_id.as_str());
        let ghost before = *self;
        self.runtimes.push((terminal_id, runtime));
        proof {
            let at = self.runtimes@.len() - 1;
            assert forall|i: int| 0 <= i < at implies #[trigger] self.runtimes@[i].0@
                != terminal_id@ by {
                if self.runtimes@[i].0@ == terminal_id@ {
                    before.lemma_value_at(i);
                }
            }
            self.lemma_value_at(at);
            let wanted = old(self)@.insert(terminal_id@, runtime);
            assert forall|id: Seq<char>|
                #![trigger self@.contains_key(id)]
                #![trigger wanted.contains_key(id)]
                self@.contains_key(id) == wanted.contains_key(id) && (self@.contains_key(id)
                    ==> self@[id] == wanted[id]) by {
                if id != terminal_id@ {
                    if self@.contains_key(id) {
                        let i = choose|i: int| self.has_at(id, i);
                        assert(self.has_at(id, i));
                        assert(before.has_at(id, i));
                        self.lemma_value_at(i);
                        before.lemma_value_at(i);
                    }
                    if before@.contains_key(id) {
                        let i = choose|i: int| before.has_at(id, i);
                        assert(before.has_at(id, i));
                        assert(self.has_at(id, i));
                        self.lemma_value_at(i);
                        before.lemma_value_at(i);
                    }
                }
            }
            assert(self@.dom() =~= wanted.dom());
            assert(self@ =~= wanted);
        }
        replaced
    }

    /// Take a terminal's runtime away.
    pub fn remove(&mut self, terminal_id: &str) -> (removed: Option<R>)
        requires
            old(self).wf(),
        ensures
            final(self).wf(),
            final(self)@ == old(self)@.remove(terminal_id@),
            removed == if old(self)@.contains_key(terminal_id@) {
                Some(old(self)@[terminal_id@])
            } else {
                None
            },
    {
        let ghost before = *self;
        match self.find(terminal_id) {
            None => {
                assert(self@ =~= before@.remove(terminal_id@));
                None
            },
            Some(at) => {
                let (_, runtime) = self.runtimes.remove(at);
                proof {
                    let place = |i: int|
                        if i < at {
                            i
                        } else {
                            i + 1
                        };
                    assert forall|i: int| 0 <= i < self.runtimes@.len() implies
                        #[trigger] self.runtimes@[i] == before.runtimes@[place(i)] by {}
                    assert forall|i: int, j: int| 0 <= i < j < self.runtimes@.len() implies
                        self.runtimes@[i].0@ != self.runtimes@[j].0@ by {
                        assert(before.runtimes@[place(i)].0@ != before.runtimes@[place(j)].0@);
                    }
                    let wanted = before@.remove(terminal_id@);
                    assert forall|id: Seq<char>|
                        #![trigger self@.contains_key(id)]
                        #![trigger wanted.contains_key(id)]
                        self@.contains_key(id) == wanted.contains_key(id) && (self@.contains_key(id)
                            ==> self@[id] == wanted[id]) by {
                        if self@.contains_key(id) {
                            let i = choose|i: int| self.has_at(id, i);
                            assert(self.has_at(id, i));
                            assert(before.has_at(id, place(i)));
                            self.lemma_value_at(i);
                            before.lemma_value_at(place(i));
                            assert(id != terminal_id@) by {
                                if id == terminal_id@ {
                                    assert(before.has_at(terminal_id@, at as int));
                                    assert(place(i) == at);
                                }
                            }
                        }
                        if wanted.contains_key(id) {
                            let k = choose|k: int| before.has_at(id, k);
                            assert(before.has_at(id, k));
                            assert(k != at);
                            let i = if k < at {
                                k
                            } else {
                                k - 1
                            };
                            assert(place(i) == k);
                            assert(self.runtimes@[i] == before.runtimes@[place(i)]);
                            assert(self.has_at(id, i));
                            self.lemma_value_at(i);
                            before.lemma_value_at(k);
                        }
                    }
                    assert(self@.dom() =~= wanted.dom());
                    assert(self@ =~= wanted);
                }
                Some(runtime)
            },
        }
    }
}

/// A runtime that is inserted is its terminal's, the one it replaces is handed back,
/// and every other terminal keeps its own; the same holds of a removal.
pub proof fn law_runtimes_belong_to_their_terminals<R>(
    grown: &mut TerminalRuntimeRegistry<R>,
    shrunk: &mut TerminalRuntimeRegistry<R>,
    terminal_id: String,
    runtime: R,
    replaced: Option<R>,
    gone: &str,
    removed: Option<R>,
    other: Seq<char>,
)
    ensures
        call_ensures(
            TerminalRuntimeRegistry::<R>::insert,
            (grown, terminal_id, runtime),
            replaced,
        ) ==> {
            &&& final(grown)@.contains_key(terminal_id@) && final(grown)@[terminal_id@] == runtime
            &&& old(grown)@.contains_key(terminal_id@) ==> replaced == Some(
                old(grown)@[terminal_id@],
            )
            &&& !old(grown)@.contains_key(terminal_id@) ==> replaced is None
            &&& other != terminal_id@ ==> (final(grown)@.contains_key(other) <==> old(
                grown,
            )@.contains_key(other))
            &&& other != terminal_id@ && old(grown)@.contains_key(other) ==> final(grown)@[other]
                == old(grown)@[other]
        },
        call_ensures(TerminalRuntimeRegistry::<R>::remove, (shrunk, gone), removed) ==> {
            &&& !final(shrunk)@.contains_key(gone@)
            &&& old(shrunk)@.contains_key(gone@) ==> removed == Some(old(shrunk)@[gone@])
            &&& !old(shrunk)@.contains_key(gone@) ==> removed is None
            &&& other != gone@ ==> (final(shrunk)@.contains_key(other) <==> old(
                shrunk,
            )@.contains_key(other))
            &&& other != gone@ && old(shrunk)@.contains_key(other) ==> final(shrunk)@[other] == old(
                shrunk,
            )@[other]
        },
{
}

} // verus!
