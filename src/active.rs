use vstd::prelude::*;

verus! {

/// Handed out when a splice task starts; given back when it ends.
pub struct SpliceTicket {
    id: u64,
}

impl SpliceTicket {
    pub closed spec fn id(&self) -> u64 {
        self.id
    }
}

/// The splice tasks that are running, for the log.
pub struct ActiveSplices {
    running: Vec<u64>,
    next_id: u64,
}

impl ActiveSplices {
    /// The tickets of the running splice tasks.
    pub closed spec fn running(&self) -> Set<u64> {
        self.running@.to_set()
    }

    /// The ticket that the next `begin` hands out.
    pub closed spec fn next_id(&self) -> u64 {
        self.next_id
    }

    pub closed spec fn wf(&self) -> bool {
        &&& self.running@.no_duplicates()
        &&& forall|i: int| 0 <= i < self.running@.len() ==> self.running@[i] < self.next_id
    }

    pub fn new() -> (r: ActiveSplices)
        ensures
            r.wf(),
            r.running() == Set::<u64>::empty(),
    {
        let r = ActiveSplices { running: Vec::new(), next_id: 0 };
        assert(r.running@.to_set() =~= Set::<u64>::empty());
        r
    }

    /// Number of running splice tasks.
    pub fn active(&self) -> (r: usize)
        requires
            self.wf(),
        ensures
            r == self.running().len(),
    {
        proof {
            self.running@.unique_seq_to_set();
        }
        self.running.len()
    }

    /// Records that a splice task starts. Fails only once every ticket has
    /// been handed out.
    pub fn begin(&mut self) -> (r: Option<SpliceTicket>)
        requires
            old(self).wf(),
        ensures
            final(self).wf(),
            r is None <==> old(self).next_id() == u64::MAX,
            r matches Some(t) ==> !old(self).running().contains(t.id()) && final(self).running()
                == old(self).running().insert(t.id()),
            r is None ==> final(self).running() == old(self).running(),
    {
        if self.next_id == u64::MAX {
            return None;
        }
        let id = self.next_id;
        proof {
            if self.running@.to_set().contains(id) {
                let i = choose|i: int| 0 <= i < self.running@.len() && self.running@[i] == id;
            }
        }
        proof {
            lemma_push_fresh(self.running@, id);
        }
        self.running.push(id);
        self.next_id = self.next_id + 1;
        Some(SpliceTicket { id })
    }

    /// Records that the splice task holding `t` has ended. Says whether it
    /// was running.
    pub fn end(&mut self, t: SpliceTicket) -> (r: bool)
        requires
            old(self).wf(),
        ensures
            final(self).wf(),
            r == old(self).running().contains(t.id()),
            final(self).running() == old(self).running().remove(t.id()),
    {
        let mut i: usize = 0;
        while i < self.running.len()
            invariant
                self.wf(),
                *self == *old(self),
                i <= self.running@.len(),
                forall|j: int| 0 <= j < i ==> self.running@[j] != t.id,
            decreases self.running@.len() - i,
        {
            if self.running[i] == t.id {
                proof {
                    lemma_remove_unique(self.running@, i as int, self.next_id);
                }
                self.running.remove(i);
                return true;
            }
            i = i + 1;
        }
        proof {
            if self.running@.to_set().contains(t.id) {
                let k = choose|k: int| 0 <= k < self.running@.len() && self.running@[k] == t.id;
            }
            assert(self.running@.to_set() =~= self.running@.to_set().remove(t.id));
        }
        false
    }
}

proof fn lemma_push_fresh(s: Seq<u64>, id: u64)
    ensures
        s.push(id).to_set() == s.to_set().insert(id),
{
    assert forall|x: u64| #[trigger] s.push(id).to_set().contains(x) <==> s.to_set().insert(
        id,
    ).contains(x) by {
        if s.push(id).to_set().contains(x) {
            let k = choose|k: int| 0 <= k < s.push(id).len() && s.push(id)[k] == x;
            if k < s.len() {
                assert(s[k] == x);
            }
        }
        if s.to_set().contains(x) {
            let k = choose|k: int| 0 <= k < s.len() && s[k] == x;
            assert(s.push(id)[k] == x);
        }
        if x == id {
            assert(s.push(id)[s.len() as int] == x);
        }
    }
    assert(s.push(id).to_set() =~= s.to_set().insert(id));
}

proof fn lemma_remove_unique(s: Seq<u64>, i: int, bound: u64)
    requires
        s.no_duplicates(),
        0 <= i < s.len(),
        forall|j: int| 0 <= j < s.len() ==> s[j] < bound,
    ensures
        s.remove(i).to_set() == s.to_set().remove(s[i]),
        s.remove(i).no_duplicates(),
        forall|j: int| 0 <= j < s.remove(i).len() ==> s.remove(i)[j] < bound,
{
    let r = s.remove(i);
    assert forall|x: u64| #[trigger] r.to_set().contains(x) <==> s.to_set().remove(s[i]).contains(
        x,
    ) by {
        if r.to_set().contains(x) {
            let k = choose|k: int| 0 <= k < r.len() && r[k] == x;
            if k < i {
                assert(s[k] == x);
            } else {
                assert(s[k + 1] == x);
            }
        }
        if s.to_set().remove(s[i]).contains(x) {
            let k = choose|k: int| 0 <= k < s.len() && s[k] == x;
            if k < i {
                assert(r[k] == x);
            } else {
                assert(r[k - 1] == x);
            }
        }
    }
    assert(r.to_set() =~= s.to_set().remove(s[i]));
    assert forall|a: int, b: int| 0 <= a < r.len() && 0 <= b < r.len() && a != b implies r[a]
        != r[b] by {
        let a2 = if a < i {
            a
        } else {
            a + 1
        };
        let b2 = if b < i {
            b
        } else {
            b + 1
        };
        assert(s[a2] == r[a]);
        assert(s[b2] == r[b]);
    }
    assert forall|j: int| 0 <= j < r.len() implies r[j] < bound by {
        let j2 = if j < i {
            j
        } else {
            j + 1
        };
        assert(s[j2] == r[j]);
    }
}

} // verus!
