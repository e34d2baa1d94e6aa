use vstd::prelude::*;

verus! {

/// The right to produce one item of an idle stream. The consumer sends it to
/// the producer to ask for an item; the producer sends it back with the item.
pub struct RequestToken {
    round: u64,
}

impl RequestToken {
    pub closed spec fn round(&self) -> u64 {
        self.round
    }
}

/// The consumer's side of the single-slot handoff between an idle stream and
/// its producer: at most one request is out at any time, and each answer must
/// carry back the token of the request it answers.
pub struct Handoff {
    rounds: u64,
    outstanding: bool,
}

impl Handoff {
    /// Requests made so far.
    pub closed spec fn rounds(&self) -> u64 {
        self.rounds
    }

    /// Whether a request is out and unanswered.
    pub closed spec fn outstanding(&self) -> bool {
        self.outstanding
    }

    pub fn new() -> (r: Handoff)
        ensures
            r.rounds() == 0,
            !r.outstanding(),
    {
        Handoff { rounds: 0, outstanding: false }
    }

    /// Whether a request is out and unanswered.
    pub fn is_outstanding(&self) -> (r: bool)
        ensures
            r == self.outstanding(),
    {
        self.outstanding
    }

    /// Asks the producer for its next item. Fails while a request is out, or
    /// once every round number has been used.
    pub fn request(&mut self) -> (r: Option<RequestToken>)
        ensures
            r is Some <==> !old(self).outstanding() && old(self).rounds() < u64::MAX,
            r matches Some(t) ==> t.round() == old(self).rounds() && final(self).outstanding()
                && final(self).rounds() == old(self).rounds() + 1,
            r is None ==> *final(self) == *old(self),
    {
        if self.outstanding || self.rounds == u64::MAX {
            return None;
        }
        let t = RequestToken { round: self.rounds };
        self.rounds = self.rounds + 1;
        self.outstanding = true;
        Some(t)
    }

    /// Takes back the token that came with an item. Says whether it answers
    /// the request that is out; if not, nothing changes.
    pub fn answer(&mut self, t: RequestToken) -> (r: bool)
        ensures
            r == (old(self).outstanding() && t.round() + 1 == old(self).rounds()),
            r ==> !final(self).outstanding() && final(self).rounds() == old(self).rounds(),
            !r ==> *final(self) == *old(self),
    {
        if self.outstanding && t.round < self.rounds && t.round + 1 == self.rounds {
            self.outstanding = false;
            true
        } else {
            false
        }
    }
}

} // verus!
