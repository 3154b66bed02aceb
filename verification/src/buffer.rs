//! Fixed-size frames: every value that crosses the wire travels in one frame.

use vstd::prelude::*;

verus! {

/// Number of bytes in a frame.
pub const BUFFER_SIZE: usize = 4096;

/// One frame.
pub type Buffer = [u8; BUFFER_SIZE];

/// What a frame holds when it is made from `bytes`: the bytes themselves, as
/// far as they fit, and zeros after them.
pub open spec fn framed(bytes: Seq<u8>) -> Seq<u8> {
    Seq::new(
        BUFFER_SIZE as nat,
        |i: int|
            if i < bytes.len() {
                bytes[i]
            } else {
                0u8
            },
    )
}

/// A payload that fits in a frame stands at the frame's beginning, whole and
/// unchanged, and nothing but zeros stands behind it. Of a payload that does
/// not fit, the frame holds the beginning.
pub proof fn lemma_framed(bytes: Seq<u8>)
    ensures
        framed(bytes).len() == BUFFER_SIZE,
        bytes.len() <= BUFFER_SIZE ==> framed(bytes).take(bytes.len() as int) == bytes,
        forall|i: int| bytes.len() <= i < BUFFER_SIZE ==> framed(bytes)[i] == 0u8,
        bytes.len() >= BUFFER_SIZE ==> framed(bytes) == bytes.take(BUFFER_SIZE as int),
{
    if bytes.len() <= BUFFER_SIZE {
        assert(framed(bytes).take(bytes.len() as int) =~= bytes);
    }
    if bytes.len() >= BUFFER_SIZE {
        assert(framed(bytes) =~= bytes.take(BUFFER_SIZE as int));
    }
}

/// Lays `bytes` out in a frame. A payload shorter than a frame is followed by
/// zeros; of a longer one only the first `BUFFER_SIZE` bytes are kept.
pub fn from_vec(bytes: Vec<u8>) -> (buf: Buffer)
    ensures
        buf@ == framed(bytes@),
{
    let mut buf: Buffer = [0u8; BUFFER_SIZE];
    let mut i: usize = 0;
    while i < BUFFER_SIZE && i < bytes.len()
        invariant
            i <= BUFFER_SIZE,
            i <= bytes.len(),
            forall|j: int| 0 <= j < i ==> buf@[j] == bytes@[j],
            forall|j: int| i <= j < BUFFER_SIZE ==> buf@[j] == 0u8,
        decreases BUFFER_SIZE - i,
    {
        buf[i] = bytes[i];
        i = i + 1;
    }
    buf
}

/// What one read from the stream meant for the frame that is being read.
#[derive(Debug)]
pub enum ReadStep {
    /// The read returned nothing: the peer has closed the stream.
    Closed,
    /// The frame is not complete yet: read again.
    Partial,
    /// The frame is complete.
    Frame(Buffer),
}

/// Collects the bytes of one frame from as many reads as the stream needs.
/// A read that returns fewer bytes than the frame still lacks is no short
/// frame: its bytes are kept, and the next read goes on behind them.
pub struct FrameReader {
    buf: Buffer,
    filled: usize,
}

impl View for FrameReader {
    type V = Seq<u8>;

    /// The bytes of the frame that have arrived so far.
    closed spec fn view(&self) -> Seq<u8> {
        self.buf@.take(self.filled as int)
    }
}

impl FrameReader {
    #[verifier::type_invariant]
    spec fn wf(self) -> bool {
        self.filled < BUFFER_SIZE
    }

    /// A reader that has received nothing yet.
    pub fn new() -> (reader: Self)
        ensures
            reader@ == Seq::<u8>::empty(),
    {
        FrameReader { buf: [0u8; BUFFER_SIZE], filled: 0 }
    }

    /// How many bytes the frame still lacks, which is how many the next read
    /// may ask for.
    pub fn missing(&self) -> (n: usize)
        ensures
            n == BUFFER_SIZE - self@.len(),
            0 < n <= BUFFER_SIZE,
    {
        proof {
            use_type_invariant(self);
        }
        BUFFER_SIZE - self.filled
    }

    /// Takes in what one read returned. Nothing means that the peer closed
    /// the stream; otherwise the bytes go behind those already held, and the
    /// frame is handed out once it is complete.
    pub fn accept(&mut self, chunk: &[u8]) -> (step: ReadStep)
        requires
            chunk@.len() <= BUFFER_SIZE - old(self)@.len(),
        ensures
            chunk@.len() == 0 ==> step is Closed && final(self)@ == old(self)@,
            0 < chunk@.len() < BUFFER_SIZE - old(self)@.len() ==> step is Partial && final(self)@
                == old(self)@ + chunk@,
            0 < chunk@.len() == BUFFER_SIZE - old(self)@.len() ==> final(self)@ == Seq::<u8>::empty()
                && (step matches ReadStep::Frame(frame) && frame@ == old(self)@ + chunk@),
    {
        proof {
            use_type_invariant(&*self);
        }
        if chunk.len() == 0 {
            return ReadStep::Closed;
        }
        let mut buf: Buffer = self.buf;
        let start: usize = self.filled;
        let mut i: usize = 0;
        while i < chunk.len()
            invariant
                i <= chunk@.len(),
                start + chunk@.len() <= BUFFER_SIZE,
                buf@.take(start as int) == old(self)@,
                forall|j: int| 0 <= j < i ==> buf@[start + j] == chunk@[j],
            decreases chunk@.len() - i,
        {
            buf[start + i] = chunk[i];
            proof {
                assert(buf@.take(start as int) =~= old(self)@);
            }
            i = i + 1;
        }
        let end: usize = start + chunk.len();
        proof {
            assert(buf@.take(end as int) =~= old(self)@ + chunk@);
        }
        if end == BUFFER_SIZE {
            self.buf = buf;
            self.filled = 0;
            proof {
                assert(buf@.take(BUFFER_SIZE as int) =~= buf@);
                assert(self@ =~= Seq::<u8>::empty());
            }
            ReadStep::Frame(buf)
        } else {
            self.buf = buf;
            self.filled = end;
            ReadStep::Partial
        }
    }
}

/// What one write to the stream meant for the frame that is being written.
#[derive(Debug)]
pub enum WriteStep {
    /// The write took nothing: the peer has closed the stream.
    Closed,
    /// Part of the frame is still to be written: write again.
    Partial,
    /// The whole frame has been written.
    Done,
}

/// Keeps count of how much of one frame the stream has taken, so that a
/// short write is followed by a write of the rest and not of the whole.
pub struct FrameWriter {
    sent: usize,
}

impl View for FrameWriter {
    type V = nat;

    /// How many bytes of the frame the stream has taken so far.
    closed spec fn view(&self) -> nat {
        self.sent as nat
    }
}

impl FrameWriter {
    #[verifier::type_invariant]
    spec fn wf(self) -> bool {
        self.sent < BUFFER_SIZE
    }

    /// A writer that has written nothing yet.
    pub fn new() -> (writer: Self)
        ensures
            writer@ == 0,
    {
        FrameWriter { sent: 0 }
    }

    /// The part of `frame` that the next write is to offer to the stream.
    pub fn rest<'a>(&self, frame: &'a Buffer) -> (bytes: &'a [u8])
        ensures
            bytes@ == frame@.skip(self@ as int),
            bytes@.len() > 0,
    {
        proof {
            use_type_invariant(self);
        }
        vstd::slice::slice_subrange(frame.as_slice(), self.sent, BUFFER_SIZE)
    }

    /// Takes in how many bytes one write took. None means that the peer
    /// closed the stream; otherwise the count goes up, and starts again at
    /// nothing once the whole frame is out.
    pub fn wrote(&mut self, n: usize) -> (step: WriteStep)
        requires
            n <= BUFFER_SIZE - old(self)@,
        ensures
            n == 0 ==> step is Closed && final(self)@ == old(self)@,
            0 < n < BUFFER_SIZE - old(self)@ ==> step is Partial && final(self)@ == old(self)@ + n,
            0 < n == BUFFER_SIZE - old(self)@ ==> step is Done && final(self)@ == 0,
    {
        proof {
            use_type_invariant(&*self);
        }
        if n == 0 {
            WriteStep::Closed
        } else if self.sent + n == BUFFER_SIZE {
            self.sent = 0;
            WriteStep::Done
        } else {
            self.sent = self.sent + n;
            WriteStep::Partial
        }
    }
}

} // verus!
