use vstd::prelude::*;

verus! {

/// The outcome of dialing addresses in order, given the outcome of each
/// attempt: the first success wins; if all fail, the last error.
pub open spec fn first_ok<T, E>(rs: Seq<Result<T, E>>) -> Result<T, E>
    recommends
        rs.len() > 0,
    decreases rs.len(),
{
    if rs.len() <= 1 || rs[0] is Ok {
        rs[0]
    } else {
        first_ok(rs.drop_first())
    }
}

/// The dialer succeeds exactly when one of the attempts succeeds; when all
/// fail, its error is that of the last address tried.
pub proof fn lemma_first_ok<T, E>(rs: Seq<Result<T, E>>)
    requires
        rs.len() > 0,
    ensures
        first_ok(rs) is Ok <==> exists|i: int| 0 <= i < rs.len() && rs[i] is Ok,
        (forall|i: int| 0 <= i < rs.len() ==> rs[i] is Err) ==> first_ok(rs) == rs.last(),
        first_ok(rs) is Ok ==> exists|i: int|
            0 <= i < rs.len() && rs[i] == first_ok(rs) && forall|j: int|
                0 <= j < i ==> rs[j] is Err,
    decreases rs.len(),
{
    if rs.len() > 1 && rs[0] is Err {
        let tail = rs.drop_first();
        lemma_first_ok(tail);
        if first_ok(tail) is Ok {
            let i = choose|i: int|
                0 <= i < tail.len() && tail[i] == first_ok(tail) && forall|j: int|
                    0 <= j < i ==> tail[j] is Err;
            assert(rs[i + 1] == tail[i]);
            assert forall|j: int| 0 <= j < i + 1 implies rs[j] is Err by {
                if j > 0 {
                    assert(rs[j] == tail[j - 1]);
                }
            }
        }
        if exists|i: int| 0 <= i < rs.len() && rs[i] is Ok {
            let i = choose|i: int| 0 <= i < rs.len() && rs[i] is Ok;
            assert(tail[i - 1] == rs[i]);
        }
        assert(tail.last() == rs.last());
    }
}

/// What to do after an attempt.
pub enum DialStep<T, E> {
    /// Try the address at this index next.
    TryNext(usize),
    /// Connected.
    Connected(T),
    /// Every address failed; this is the last error.
    Failed(E),
}

/// Dials a list of addresses one after the other, no two at once.
pub struct Dialer<T, E> {
    total: usize,
    tried: usize,
    history: Ghost<Seq<Result<T, E>>>,
}

impl<T, E> Dialer<T, E> {
    /// Number of addresses in the list.
    pub closed spec fn total(&self) -> nat {
        self.total as nat
    }

    /// The outcomes of the attempts so far, all failures.
    pub closed spec fn history(&self) -> Seq<Result<T, E>> {
        self.history@
    }

    pub closed spec fn wf(&self) -> bool {
        &&& self.tried < self.total
        &&& self.tried == self.history@.len()
        &&& forall|i: int| 0 <= i < self.history@.len() ==> self.history@[i] is Err
    }

    /// A dialer over `total` addresses; the first to try is at index 0.
    pub fn new(total: usize) -> (r: Self)
        requires
            total > 0,
        ensures
            r.wf(),
            r.total() == total,
            r.history() == Seq::<Result<T, E>>::empty(),
    {
        Dialer { total, tried: 0, history: Ghost(Seq::empty()) }
    }

    /// The index of the address to try now.
    pub fn next_index(&self) -> (r: usize)
        requires
            self.wf(),
        ensures
            r == self.history().len(),
            r < self.total(),
    {
        self.tried
    }

    /// Takes the outcome of the attempt on the current address.
    pub fn on_attempt(&mut self, r: Result<T, E>) -> (s: DialStep<T, E>)
        requires
            old(self).wf(),
        ensures
            final(self).total() == old(self).total(),
            final(self).history() == old(self).history().push(r),
            s matches DialStep::TryNext(i) ==> final(self).wf() && i == final(self).history().len(),
            s matches DialStep::Connected(t) ==> first_ok(final(self).history()) == Ok::<T, E>(t),
            s matches DialStep::Failed(e) ==> first_ok(final(self).history()) == Err::<T, E>(e)
                && final(self).history().len() == final(self).total(),
            r matches Ok(t) ==> s == DialStep::<T, E>::Connected(t),
            r matches Err(e) ==> if old(self).history().len() + 1 < old(self).total() {
                s == DialStep::<T, E>::TryNext((old(self).history().len() + 1) as usize)
            } else {
                s == DialStep::<T, E>::Failed(e)
            },
    {
        proof {
            lemma_first_ok_of_failures(self.history@, r);
        }
        self.history = Ghost(self.history@.push(r));
        match r {
            Ok(t) => DialStep::Connected(t),
            Err(e) => {
                if self.tried + 1 < self.total {
                    self.tried = self.tried + 1;
                    DialStep::TryNext(self.tried)
                } else {
                    self.tried = self.tried + 1;
                    DialStep::Failed(e)
                }
            },
        }
    }
}

/// After a run of failures, the outcome is decided by the attempt that follows.
proof fn lemma_first_ok_of_failures<T, E>(h: Seq<Result<T, E>>, r: Result<T, E>)
    requires
        forall|i: int| 0 <= i < h.len() ==> h[i] is Err,
    ensures
        first_ok(h.push(r)) == r,
    decreases h.len(),
{
    if h.len() > 0 {
        assert(h.push(r).drop_first() =~= h.drop_first().push(r));
        lemma_first_ok_of_failures(h.drop_first(), r);
    }
}

} // verus!
