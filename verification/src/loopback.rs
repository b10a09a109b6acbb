//! Models of the traffic the runtime carries, used to state end-to-end
//! delivery.
//!
//! A loopback channel is a byte queue between a producer and a consumer:
//! a write appends, a read takes from the front.  The channel keeps the
//! full history of what was sent and what was received, so delivery can
//! be stated exactly: at every moment the bytes sent are the bytes
//! received followed by the bytes still buffered — in particular, once
//! the buffer is drained, the consumer has received exactly what the
//! producer sent, byte for byte and in order, for any number of writers
//! and any worker count driving them.
//!
//! The echo session tracks a request/response exchange: a client that
//! writes a request and then reads the echoed response can, at any stop
//! point, have sent at most one request that was not yet answered.

use vstd::prelude::*;

verus! {

/// A loopback byte channel with its transfer history.
pub struct LoopbackChan {
    buf: Vec<u8>,
    sent: Ghost<Seq<u8>>,
    received: Ghost<Seq<u8>>,
}

impl LoopbackChan {
    /// Every byte ever written, in order.
    pub closed spec fn sent(&self) -> Seq<u8> {
        self.sent@
    }

    /// Every byte ever read, in order.
    pub closed spec fn received(&self) -> Seq<u8> {
        self.received@
    }

    /// The bytes written but not yet read, in order.
    pub closed spec fn buffered(&self) -> Seq<u8> {
        self.buf@
    }

    /// Conservation: what was sent is what was received followed by what
    /// is still in flight.  No byte is lost, duplicated or reordered.
    pub open spec fn wf(&self) -> bool {
        self.sent() == self.received() + self.buffered()
    }

    /// Creates an empty channel with empty history.
    pub fn new() -> (c: LoopbackChan)
        ensures
            c.wf(),
            c.sent() == Seq::<u8>::empty(),
            c.received() == Seq::<u8>::empty(),
            c.buffered() == Seq::<u8>::empty(),
    {
        let c = LoopbackChan {
            buf: Vec::new(),
            sent: Ghost(Seq::empty()),
            received: Ghost(Seq::empty()),
        };
        proof {
            assert(c.sent() =~= c.received() + c.buffered());
        }
        c
    }

    /// The number of buffered bytes.
    pub fn buffered_len(&self) -> (n: usize)
        ensures
            n == self.buffered().len(),
    {
        self.buf.len()
    }

    /// The producer side: appends the data to the channel and records it
    /// as sent.
    pub fn write(&mut self, data: &Vec<u8>)
        requires
            old(self).wf(),
        ensures
            final(self).wf(),
            final(self).sent() == old(self).sent() + data@,
            final(self).received() == old(self).received(),
            final(self).buffered() == old(self).buffered() + data@,
    {
        let n = data.len();
        let mut i: usize = 0;
        while i < n
            invariant
                0 <= i <= n,
                n == data@.len(),
                self.buf@ == old(self).buf@ + data@.take(i as int),
                self.sent == old(self).sent,
                self.received == old(self).received,
            decreases n - i,
        {
            self.buf.push(data[i]);
            proof {
                assert(self.buf@ =~= old(self).buf@ + data@.take(i + 1));
            }
            i = i + 1;
        }
        proof {
            assert(data@.take(n as int) =~= data@);
        }
        self.sent = Ghost(self.sent@ + data@);
        proof {
            assert(self.sent() =~= self.received() + self.buffered());
        }
    }

    /// The consumer side: takes up to `max` bytes from the front of the
    /// channel, in order, and records them as received.
    pub fn read(&mut self, max: usize) -> (out: Vec<u8>)
        requires
            old(self).wf(),
        ensures
            final(self).wf(),
            out@.len() == if max <= old(self).buffered().len() {
                max as int
            } else {
                old(self).buffered().len() as int
            },
            out@ == old(self).buffered().take(out@.len() as int),
            final(self).buffered() == old(self).buffered().skip(out@.len() as int),
            final(self).received() == old(self).received() + out@,
            final(self).sent() == old(self).sent(),
    {
        let mut out: Vec<u8> = Vec::new();
        while out.len() < max && self.buf.len() > 0
            invariant
                out@.len() <= max,
                out@.len() <= old(self).buf@.len(),
                out@ == old(self).buf@.take(out@.len() as int),
                self.buf@ == old(self).buf@.skip(out@.len() as int),
                self.sent == old(self).sent,
                self.received == old(self).received,
            decreases max - out@.len(),
        {
            let b = self.buf.remove(0);
            out.push(b);
            proof {
                assert(out@ =~= old(self).buf@.take(out@.len() as int));
                assert(self.buf@ =~= old(self).buf@.skip(out@.len() as int));
            }
        }
        self.received = Ghost(self.received@ + out@);
        proof {
            assert(self.received() + self.buffered() =~= old(self).received() + old(
                self,
            ).buffered());
        }
        out
    }
}

/// End-to-end delivery over a loopback channel: the bytes the consumer
/// has received are always a prefix of the bytes the producer sent, their
/// counts differ by exactly what is still buffered, and a drained channel
/// has delivered everything, byte for byte.
pub proof fn lemma_loopback_conservation(c: &LoopbackChan)
    requires
        c.wf(),
    ensures
        c.sent().len() == c.received().len() + c.buffered().len(),
        c.received() == c.sent().take(c.received().len() as int),
        c.buffered().len() == 0 ==> c.received() == c.sent(),
{
    assert(c.received() =~= c.sent().take(c.received().len() as int));
    if c.buffered().len() == 0 {
        assert(c.received() =~= c.sent());
    }
}

/// One client's request/response bookkeeping against an echo responder:
/// requests are counted when fully written, responses when fully read
/// back.
pub struct EchoStats {
    /// Requests fully sent so far.
    pub requests_sent: u64,
    /// Responses fully received so far.
    pub responses_received: u64,
}

impl EchoStats {
    /// The session invariant: at any stop point the client has received
    /// every response but possibly the one to its last request —
    /// `responses_received <= requests_sent <= responses_received + 1`.
    pub open spec fn wf(&self) -> bool {
        self.responses_received <= self.requests_sent <= self.responses_received + 1
    }

    /// A fresh session: nothing sent, nothing received.
    pub fn new() -> (s: EchoStats)
        ensures
            s.wf(),
            s.requests_sent == 0,
            s.responses_received == 0,
    {
        EchoStats { requests_sent: 0, responses_received: 0 }
    }

    /// Counts a fully written request.  The session alternates: a new
    /// request goes out only once the previous one was answered.  Both
    /// counts are monotonically non-decreasing.
    pub fn record_request(&mut self)
        requires
            old(self).wf(),
            old(self).requests_sent == old(self).responses_received,
            old(self).requests_sent < u64::MAX,
        ensures
            final(self).wf(),
            final(self).requests_sent == old(self).requests_sent + 1,
            final(self).responses_received == old(self).responses_received,
            final(self).requests_sent >= old(self).requests_sent,
    {
        self.requests_sent = self.requests_sent + 1;
    }

    /// Counts a fully read response, answering the outstanding request.
    /// Both counts are monotonically non-decreasing.
    pub fn record_response(&mut self)
        requires
            old(self).wf(),
            old(self).requests_sent == old(self).responses_received + 1,
        ensures
            final(self).wf(),
            final(self).responses_received == old(self).responses_received + 1,
            final(self).requests_sent == old(self).requests_sent,
            final(self).responses_received >= old(self).responses_received,
    {
        self.responses_received = self.responses_received + 1;
    }
}

} // verus!
