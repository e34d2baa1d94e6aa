use vstd::prelude::*;

verus! {

/// Number of bytes in the handshake magic.
pub const MAGIC_LEN: usize = 8;

/// The handshake magic that both halves of the relay write and expect.
pub open spec fn magic_bytes() -> Seq<u8> {
    seq![0x72u8, 0x65u8, 0x6cu8, 0x61u8, 0x79u8, 0x65u8, 0x64u8, 0x01u8]
}

/// Whether `s` is how the magic begins.
pub open spec fn is_magic_prefix(s: Seq<u8>) -> bool {
    s.len() <= MAGIC_LEN && s == magic_bytes().subrange(0, s.len() as int)
}

/// The magic, ready to be written to a connection.
pub fn magic() -> (r: Vec<u8>)
    ensures
        r@ == magic_bytes(),
        r@.len() == MAGIC_LEN,
{
    let r = vec![0x72u8, 0x65u8, 0x6cu8, 0x61u8, 0x79u8, 0x65u8, 0x64u8, 0x01u8];
    assert(r@ =~= magic_bytes());
    r
}

/// What one more byte did to a magic being read.
#[derive(Clone, Copy, Debug, PartialEq, Eq, Structural)]
pub enum MagicStep {
    /// The bytes so far agree with the magic; more are needed.
    Partial,
    /// The whole magic has arrived.
    Complete,
    /// The byte differs from the magic: the handshake failed.
    Mismatch,
}

/// Reads the magic one byte at a time, failing on the first byte that differs.
pub struct MagicReader {
    matched: usize,
    seen: Ghost<Seq<u8>>,
}

impl MagicReader {
    /// How many bytes of the magic have been matched.
    pub closed spec fn matched(&self) -> nat {
        self.matched as nat
    }

    /// The bytes read so far.
    pub closed spec fn seen(&self) -> Seq<u8> {
        self.seen@
    }

    pub closed spec fn wf(&self) -> bool {
        &&& self.matched < MAGIC_LEN
        &&& self.seen@ == magic_bytes().subrange(0, self.matched as int)
    }

    pub fn new() -> (r: MagicReader)
        ensures
            r.wf(),
            r.matched() == 0,
            r.seen() == Seq::<u8>::empty(),
    {
        let r = MagicReader { matched: 0, seen: Ghost(Seq::empty()) };
        assert(r.seen@ =~= magic_bytes().subrange(0, 0));
        r
    }

    /// Takes the next byte read from the connection.
    pub fn feed(&mut self, b: u8) -> (r: MagicStep)
        requires
            old(self).wf(),
        ensures
            final(self).wf(),
            b != magic_bytes()[old(self).matched() as int] ==> r == MagicStep::Mismatch,
            b == magic_bytes()[old(self).matched() as int] && old(self).matched() + 1
                == MAGIC_LEN ==> r == MagicStep::Complete,
            b == magic_bytes()[old(self).matched() as int] && old(self).matched() + 1
                < MAGIC_LEN ==> r == MagicStep::Partial && final(self).matched()
                == old(self).matched() + 1,
            r == MagicStep::Complete <==> old(self).seen().push(b) == magic_bytes(),
            r == MagicStep::Partial ==> final(self).seen() == old(self).seen().push(b),
            r == MagicStep::Mismatch <==> !is_magic_prefix(old(self).seen().push(b)),
    {
        let expected = magic();
        let ghost next = self.seen@.push(b);
        let ghost prefix = magic_bytes().subrange(0, self.matched + 1);
        assert(prefix =~= self.seen@.push(magic_bytes()[self.matched as int]));
        if b != expected[self.matched] {
            assert(next[self.matched as int] != prefix[self.matched as int]);
            assert(next != magic_bytes()) by {
                assert(next.len() <= MAGIC_LEN);
                if next.len() == MAGIC_LEN {
                    assert(next[self.matched as int] != magic_bytes()[self.matched as int]);
                }
            }
            MagicStep::Mismatch
        } else if self.matched + 1 == MAGIC_LEN {
            assert(next =~= magic_bytes());
            MagicStep::Complete
        } else {
            assert(next.len() != magic_bytes().len());
            self.matched = self.matched + 1;
            self.seen = Ghost(next);
            MagicStep::Partial
        }
    }
}

} // verus!
