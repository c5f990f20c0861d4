//! The buffering of a download that is read piece by piece: a chunk that does
//! not fit in the reader's buffer is kept, and served before the next chunk is
//! asked for. Every byte received is handed out once, in the order received.

use vstd::prelude::*;

verus! {

/// How many bytes a read hands out: all that are available, or as many as fit.
pub open spec fn read_len(available: nat, room: nat) -> nat {
    if available <= room {
        available
    } else {
        room
    }
}

/// A read hands out no more bytes than there is room for and no more than are
/// available, and stops short of the room only where it hands out all that is
/// available.
pub proof fn lemma_read_len_fits(available: nat, room: nat)
    ensures
        read_len(available, room) <= room,
        read_len(available, room) <= available,
        read_len(available, room) < room ==> read_len(available, room) == available,
{
}

/// Bytes of a download that were received and not yet handed to the reader,
/// oldest first, with the record of all bytes received and handed out so far.
pub struct ReadBuffer {
    pending: Vec<u8>,
    received: Ghost<Seq<u8>>,
    delivered: Ghost<Seq<u8>>,
}

impl View for ReadBuffer {
    type V = Seq<u8>;

    closed spec fn view(&self) -> Seq<u8> {
        self.pending@
    }
}

/// What polling the download stream gave.
pub enum PollOutcome {
    /// A chunk of bytes arrived.
    Chunk(Vec<u8>),
    /// The stream reported an error.
    Failed,
    /// The stream has ended.
    End,
    /// No chunk is ready yet.
    NotReady,
}

/// What a read reports.
pub enum ReadOutcome {
    /// These bytes are handed to the reader (none at the end of the stream).
    Filled(Vec<u8>),
    /// The read fails with the stream's error.
    Failed,
    /// The read is to be tried again later.
    NotReady,
    /// An empty chunk arrived: the stream is to be polled again at once, as
    /// handing out no bytes would tell the reader that the stream has ended.
    PollAgain,
}

/// Splits `data` after the bytes that fit in `room`.
fn split_for_read(data: Vec<u8>, room: usize) -> (r: (Vec<u8>, Vec<u8>))
    ensures
        r.0@ == data@.take(read_len(data@.len(), room as nat) as int),
        r.1@ == data@.skip(read_len(data@.len(), room as nat) as int),
        r.0@ + r.1@ == data@,
{
    let mut out = data;
    let k = if out.len() <= room {
        out.len()
    } else {
        room
    };
    let ghost all = out@;
    let rest = out.split_off(k);
    assert(out@ + rest@ =~= all);
    assert(out@ =~= all.take(k as int));
    assert(rest@ =~= all.skip(k as int));
    (out, rest)
}

impl ReadBuffer {
    /// All bytes received so far, in order.
    pub closed spec fn received(&self) -> Seq<u8> {
        self.received@
    }

    /// All bytes handed to the reader so far, in order.
    pub closed spec fn delivered(&self) -> Seq<u8> {
        self.delivered@
    }

    /// The bytes handed out, followed by those pending, are the bytes received.
    pub closed spec fn wf(&self) -> bool {
        self.delivered@ + self.pending@ == self.received@
    }

    /// A buffer with nothing received.
    pub fn new() -> (r: ReadBuffer)
        ensures
            r.wf(),
            r@ == Seq::<u8>::empty(),
            r.received() == Seq::<u8>::empty(),
            r.delivered() == Seq::<u8>::empty(),
    {
        let r = ReadBuffer {
            pending: Vec::new(),
            received: Ghost(Seq::empty()),
            delivered: Ghost(Seq::empty()),
        };
        assert(r.delivered@ + r.pending@ =~= r.received@);
        r
    }

    /// Whether nothing is pending, so that the next read polls the stream.
    pub fn is_empty(&self) -> (r: bool)
        ensures
            r == (self@.len() == 0),
    {
        self.pending.len() == 0
    }

    /// Hands out the oldest pending bytes, as many as fit in `room`; the rest
    /// stays pending.
    pub fn read_pending(&mut self, room: usize) -> (out: Vec<u8>)
        requires
            old(self).wf(),
        ensures
            final(self).wf(),
            out@ == old(self)@.take(read_len(old(self)@.len(), room as nat) as int),
            final(self)@ == old(self)@.skip(read_len(old(self)@.len(), room as nat) as int),
            out@ + final(self)@ == old(self)@,
            out@.len() <= room,
            out@.len() < room ==> final(self)@.len() == 0,
            final(self).received() == old(self).received(),
            final(self).delivered() == old(self).delivered() + out@,
    {
        let mut data = Vec::new();
        std::mem::swap(&mut data, &mut self.pending);
        let (out, rest) = split_for_read(data, room);
        self.pending = rest;
        let ghost before = self.delivered@;
        self.delivered = Ghost(self.delivered@ + out@);
        assert(self.delivered@ + self.pending@ =~= before + (out@ + rest@));
        out
    }

    /// A chunk arrives while nothing is pending: hands out its first bytes, as
    /// many as fit in `room`, and keeps the rest pending.
    pub fn receive(&mut self, chunk: Vec<u8>, room: usize) -> (out: Vec<u8>)
        requires
            old(self).wf(),
            old(self)@.len() == 0,
        ensures
            final(self).wf(),
            out@ == chunk@.take(read_len(chunk@.len(), room as nat) as int),
            final(self)@ == chunk@.skip(read_len(chunk@.len(), room as nat) as int),
            out@ + final(self)@ == chunk@,
            out@.len() <= room,
            out@.len() < room ==> final(self)@.len() == 0,
            final(self).received() == old(self).received() + chunk@,
            final(self).delivered() == old(self).delivered() + out@,
    {
        let ghost c = chunk@;
        let (out, rest) = split_for_read(chunk, room);
        let ghost before_delivered = self.delivered@;
        let ghost before_received = self.received@;
        assert(before_delivered =~= before_received);
        self.pending = rest;
        self.received = Ghost(self.received@ + c);
        self.delivered = Ghost(self.delivered@ + out@);
        assert(self.delivered@ + self.pending@ =~= before_received + (out@ + rest@));
        out
    }

    /// One read of at most `room` bytes. Where bytes are pending they are
    /// served and the stream is not polled (`polled` is `None`); where none
    /// are, `polled` is what polling the stream gave: a chunk is handed out as
    /// far as it fits and the rest kept, an empty chunk asks for another poll,
    /// an error fails the read, the end of the stream hands out nothing, and a
    /// stream not ready leaves the read to be tried again. A read with room
    /// hands out no bytes only at the end of the stream.
    pub fn poll_read(&mut self, room: usize, polled: Option<PollOutcome>) -> (r: ReadOutcome)
        requires
            old(self).wf(),
            polled is None <==> old(self)@.len() > 0,
        ensures
            final(self).wf(),
            match polled {
                None => r matches ReadOutcome::Filled(out) && out@ == old(self)@.take(
                    read_len(old(self)@.len(), room as nat) as int,
                ) && final(self)@ == old(self)@.skip(read_len(old(self)@.len(), room as nat) as int)
                    && final(self).received() == old(self).received() && final(self).delivered()
                    == old(self).delivered() + out@,
                Some(PollOutcome::Chunk(c)) => if c@.len() == 0 {
                    r is PollAgain && *final(self) == *old(self)
                } else {
                    r matches ReadOutcome::Filled(out) && out@ == c@.take(
                    read_len(c@.len(), room as nat) as int,
                ) && final(self)@ == c@.skip(read_len(c@.len(), room as nat) as int)
                    && final(self).received() == old(self).received() + c@ && final(self).delivered()
                    == old(self).delivered() + out@
                },
                Some(PollOutcome::Failed) => r is Failed && *final(self) == *old(self),
                Some(PollOutcome::End) => r matches ReadOutcome::Filled(out) && out@.len() == 0
                    && *final(self) == *old(self),
                Some(PollOutcome::NotReady) => r is NotReady && *final(self) == *old(self),
            },
            r matches ReadOutcome::Filled(out) ==> out@.len() <= room,
            room > 0 && (r matches ReadOutcome::Filled(out) && out@.len() == 0) ==> polled matches Some(
                PollOutcome::End,
            ),
    {
        match polled {
            None => ReadOutcome::Filled(self.read_pending(room)),
            Some(PollOutcome::Chunk(c)) => {
                if c.len() == 0 {
                    ReadOutcome::PollAgain
                } else {
                    ReadOutcome::Filled(self.receive(c, room))
                }
            },
            Some(PollOutcome::Failed) => ReadOutcome::Failed,
            Some(PollOutcome::End) => ReadOutcome::Filled(Vec::new()),
            Some(PollOutcome::NotReady) => ReadOutcome::NotReady,
        }
    }
}

/// Over any run of reads, no byte is lost, duplicated or reordered: the bytes
/// handed out so far, followed by those pending, are the bytes received; once
/// nothing is pending (as at the end of the stream), the bytes handed out are
/// exactly the chunks received, one after the other.
pub proof fn lemma_every_byte_delivered_once(b: ReadBuffer)
    requires
        b.wf(),
    ensures
        b.delivered() + b@ == b.received(),
        b@.len() == 0 ==> b.delivered() == b.received(),
{
    if b@.len() == 0 {
        assert(b.delivered() + b@ =~= b.delivered());
    }
}

} // verus!
