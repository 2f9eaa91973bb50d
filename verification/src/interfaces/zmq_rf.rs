//! State of the ZMQ RF link: the circular queue of transmit buffers, the
//! request/reply states of the TX and RX sockets, sample timestamps and
//! statistics. The sockets and the sample buffers are the caller's; these
//! functions decide what happens next from what the sockets reported.
use vstd::prelude::*;
use crate::interfaces::InterfaceError;

verus! {

/// Default TX port
pub const DEFAULT_TX_PORT: u16 = 2000;

/// Default RX port
pub const DEFAULT_RX_PORT: u16 = 2001;

/// TX/RX statistics.
#[derive(Debug, Clone, Copy, Default, PartialEq, Eq, Structural)]
pub struct RfStats {
    /// Samples sent
    pub tx_samples: u64,
    /// Samples received
    pub rx_samples: u64,
    /// Transmit underruns (and dropped buffers)
    pub tx_underruns: u64,
    /// Receive overruns
    pub rx_overruns: u64,
    /// Late transmit packets
    pub tx_late_packets: u64,
    /// Late receive packets
    pub rx_late_packets: u64,
}

/// State of the TX (reply) socket.
#[derive(Debug, Clone, Copy, PartialEq, Eq, Structural)]
pub enum TxState {
    /// Waiting for the UE's request
    WaitingForRequest,
    /// A request arrived and the reply is owed
    RequestReceived,
}

/// State of the RX (request) socket.
#[derive(Debug, Clone, Copy, PartialEq, Eq, Structural)]
pub enum RxState {
    /// A request can be sent
    ReadyToRequest,
    /// A request was sent and the reply is awaited
    WaitingForResponse,
}

/// What polling the TX socket for the UE's request gave.
#[derive(Debug)]
pub enum TxPoll {
    /// A request byte arrived
    Request,
    /// Nothing yet (EAGAIN)
    NoRequest,
    /// The socket is in the wrong state for receiving (EFSM)
    WrongState,
    /// Another socket error
    Failed(zmq::Error),
}

/// `x + 1` on a ring of `cap` slots.
pub open spec fn ring_next(x: int, cap: int) -> int {
    if x + 1 == cap {
        0
    } else {
        x + 1
    }
}

/// The circular queue of transmit buffer slots, as read and write
/// indices into `capacity` slots; one slot always stays free.
pub struct TxCircularBuffer {
    read_idx: usize,
    write_idx: usize,
    capacity: usize,
}

impl TxCircularBuffer {
    /// Both indices lie on the ring.
    pub closed spec fn well_formed(&self) -> bool {
        &&& 0 < self.capacity
        &&& self.read_idx < self.capacity
        &&& self.write_idx < self.capacity
    }

    /// Number of slots.
    pub closed spec fn spec_capacity(&self) -> usize {
        self.capacity
    }

    /// Number of filled slots waiting to be sent.
    pub closed spec fn pending(&self) -> int {
        if self.write_idx >= self.read_idx {
            self.write_idx - self.read_idx
        } else {
            self.capacity - self.read_idx + self.write_idx
        }
    }

    /// The filled slots, oldest first.
    pub closed spec fn slots(&self) -> Seq<usize> {
        Seq::new(
            self.pending() as nat,
            |i: int|
                if self.read_idx + i < self.capacity {
                    (self.read_idx + i) as usize
                } else {
                    (self.read_idx + i - self.capacity) as usize
                },
        )
    }

    /// The slot the next buffer is written to.
    pub closed spec fn spec_write_slot(&self) -> usize {
        self.write_idx
    }

    /// An empty ring of `capacity` slots.
    pub fn new(capacity: usize) -> (r: Self)
        requires
            capacity > 0,
        ensures
            r.well_formed(),
            r.spec_capacity() == capacity,
            r.slots() == Seq::<usize>::empty(),
            r.spec_write_slot() == 0,
    {
        let r = TxCircularBuffer { read_idx: 0, write_idx: 0, capacity };
        assert(r.slots() =~= Seq::<usize>::empty());
        r
    }

    /// Number of filled slots.
    pub fn used(&self) -> (n: usize)
        requires
            self.well_formed(),
        ensures
            n == self.pending(),
            n == self.slots().len(),
            n < self.spec_capacity(),
    {
        if self.write_idx >= self.read_idx {
            self.write_idx - self.read_idx
        } else {
            self.capacity - self.read_idx + self.write_idx
        }
    }

    /// Claims the write slot for a new buffer. When the ring is full the
    /// oldest buffer is dropped to make room (`overflow`). The claimed slot
    /// joins the filled slots at the back.
    pub fn push(&mut self) -> (r: (usize, bool))
        requires
            old(self).well_formed(),
        ensures
            final(self).well_formed(),
            final(self).spec_capacity() == old(self).spec_capacity(),
            r.0 == old(self).spec_write_slot(),
            r.1 == (old(self).slots().len() + 1 == old(self).spec_capacity()),
            final(self).slots() == (if r.1 {
                old(self).slots().push(r.0).drop_first()
            } else {
                old(self).slots().push(r.0)
            }),
            final(self).spec_write_slot() == ring_next(
                old(self).spec_write_slot() as int,
                old(self).spec_capacity() as int,
            ),
    {
        let slot = self.write_idx;
        let next_write_idx = if self.write_idx + 1 == self.capacity {
            0
        } else {
            self.write_idx + 1
        };
        let overflow = next_write_idx == self.read_idx;
        if overflow {
            self.read_idx = if self.read_idx + 1 == self.capacity {
                0
            } else {
                self.read_idx + 1
            };
        }
        self.write_idx = next_write_idx;
        let ghost o = *old(self);
        assert(overflow == (o.pending() + 1 == o.capacity));
        if overflow {
            assert(self.slots() =~= o.slots().push(slot).drop_first());
        } else {
            assert(self.slots() =~= o.slots().push(slot));
        }
        (slot, overflow)
    }

    /// Takes the oldest filled slot, if any.
    pub fn pop(&mut self) -> (r: Option<usize>)
        requires
            old(self).well_formed(),
        ensures
            final(self).well_formed(),
            final(self).spec_capacity() == old(self).spec_capacity(),
            final(self).spec_write_slot() == old(self).spec_write_slot(),
            r is None <==> old(self).slots().len() == 0,
            r is None ==> final(self).slots() == old(self).slots(),
            r is Some ==> r->0 == old(self).slots()[0] && final(self).slots() == old(self).slots().drop_first(),
    {
        if self.read_idx == self.write_idx {
            return None;
        }
        let slot = self.read_idx;
        self.read_idx = if self.read_idx + 1 == self.capacity {
            0
        } else {
            self.read_idx + 1
        };
        let ghost o = *old(self);
        assert(self.slots() =~= o.slots().drop_first());
        Some(slot)
    }
}

/// A slot claimed on an empty ring of at least two slots is the next slot
/// taken from it: what is queued first is sent first.
pub proof fn lemma_ring_first_in_first_out(before: TxCircularBuffer, after_push: TxCircularBuffer, slot: usize)
    requires
        before.well_formed(),
        before.spec_capacity() >= 2,
        before.slots().len() == 0,
        slot == before.spec_write_slot(),
        after_push.slots() == before.slots().push(slot),
    ensures
        after_push.slots().len() == 1,
        after_push.slots()[0] == slot,
{
}

/// The RF link state: running flag, socket states, timestamps, statistics
/// and the transmit ring.
pub struct RfDriverState {
    running: bool,
    tx_state: TxState,
    rx_state: RxState,
    tx_timestamp: u64,
    rx_timestamp: u64,
    stats: RfStats,
    ring: TxCircularBuffer,
}

impl RfDriverState {
    /// The ring is well formed.
    pub closed spec fn well_formed(&self) -> bool {
        self.ring.well_formed()
    }

    /// The link is running.
    pub closed spec fn is_running(&self) -> bool {
        self.running
    }

    /// TX socket state.
    pub closed spec fn spec_tx_state(&self) -> TxState {
        self.tx_state
    }

    /// RX socket state.
    pub closed spec fn spec_rx_state(&self) -> RxState {
        self.rx_state
    }

    /// Sample time after the last buffer sent.
    pub closed spec fn spec_tx_timestamp(&self) -> u64 {
        self.tx_timestamp
    }

    /// Sample time after the last buffer received.
    pub closed spec fn spec_rx_timestamp(&self) -> u64 {
        self.rx_timestamp
    }

    /// Statistics.
    pub closed spec fn spec_stats(&self) -> RfStats {
        self.stats
    }

    /// The transmit ring.
    pub closed spec fn spec_ring(&self) -> TxCircularBuffer {
        self.ring
    }

    /// A stopped link with an empty ring of `ring_buffer_size` slots,
    /// waiting for a TX request and ready to send an RX request.
    pub fn new(ring_buffer_size: usize) -> (r: Result<Self, InterfaceError>)
        requires
            ring_buffer_size > 0,
        ensures
            r is Ok,
            r->Ok_0.well_formed(),
            !r->Ok_0.is_running(),
            r->Ok_0.spec_tx_state() == TxState::WaitingForRequest,
            r->Ok_0.spec_rx_state() == RxState::ReadyToRequest,
            r->Ok_0.spec_tx_timestamp() == 0,
            r->Ok_0.spec_rx_timestamp() == 0,
            r->Ok_0.spec_stats() == RfStats::default_spec(),
            r->Ok_0.spec_ring().slots().len() == 0,
            r->Ok_0.spec_ring().spec_capacity() == ring_buffer_size,
    {
        Ok(
            RfDriverState {
                running: false,
                tx_state: TxState::WaitingForRequest,
                rx_state: RxState::ReadyToRequest,
                tx_timestamp: 0,
                rx_timestamp: 0,
                stats: RfStats::zero(),
                ring: TxCircularBuffer::new(ring_buffer_size),
            },
        )
    }

    /// Marks the link running once its sockets are up.
    pub fn initialize(&mut self) -> (r: Result<(), InterfaceError>)
        ensures
            r is Ok,
            final(self).is_running(),
            final(self).spec_ring() == old(self).spec_ring(),
            final(self).spec_stats() == old(self).spec_stats(),
            final(self).spec_tx_state() == old(self).spec_tx_state(),
            final(self).spec_rx_state() == old(self).spec_rx_state(),
            final(self).spec_tx_timestamp() == old(self).spec_tx_timestamp(),
            final(self).spec_rx_timestamp() == old(self).spec_rx_timestamp(),
    {
        self.running = true;
        Ok(())
    }

    /// Decides on a poll of the TX socket. While waiting for a request, a
    /// request means the reply is owed now (`Ok(true)`); no request, or a
    /// socket in the wrong state, means nothing to do (`Ok(false)`); another
    /// socket error is returned. With a request pending the reply is owed
    /// whatever the poll gave. `NotInitialized` when the link is not
    /// running.
    pub fn handle_tx_request(&mut self, poll: TxPoll) -> (r: Result<bool, InterfaceError>)
        ensures
            !old(self).is_running() ==> r is Err && r->Err_0 is NotInitialized && final(self).spec_tx_state()
                == old(self).spec_tx_state(),
            old(self).is_running() && old(self).spec_tx_state() == TxState::RequestReceived ==> r == Ok::<
                bool,
                InterfaceError,
            >(true) && final(self).spec_tx_state() == TxState::RequestReceived,
            old(self).is_running() && old(self).spec_tx_state() == TxState::WaitingForRequest ==> match poll {
                TxPoll::Request => r == Ok::<bool, InterfaceError>(true) && final(self).spec_tx_state()
                    == TxState::RequestReceived,
                TxPoll::NoRequest => r == Ok::<bool, InterfaceError>(false) && final(self).spec_tx_state()
                    == TxState::WaitingForRequest,
                TxPoll::WrongState => r == Ok::<bool, InterfaceError>(false) && final(self).spec_tx_state()
                    == TxState::WaitingForRequest,
                TxPoll::Failed(e) => r is Err && r->Err_0 == InterfaceError::ZmqError(e)
                    && final(self).spec_tx_state() == TxState::WaitingForRequest,
            },
            final(self).is_running() == old(self).is_running(),
            final(self).spec_ring() == old(self).spec_ring(),
            final(self).spec_stats() == old(self).spec_stats(),
            final(self).spec_rx_state() == old(self).spec_rx_state(),
            final(self).spec_tx_timestamp() == old(self).spec_tx_timestamp(),
            final(self).spec_rx_timestamp() == old(self).spec_rx_timestamp(),
    {
        if !self.running {
            return Err(InterfaceError::NotInitialized);
        }
        match self.tx_state {
            TxState::WaitingForRequest => match poll {
                TxPoll::Request => {
                    self.tx_state = TxState::RequestReceived;
                    Ok(true)
                },
                TxPoll::NoRequest => Ok(false),
                TxPoll::WrongState => Ok(false),
                TxPoll::Failed(e) => Err(InterfaceError::ZmqError(e)),
            },
            TxState::RequestReceived => Ok(true),
        }
    }

    /// Takes the oldest queued transmit buffer's slot, if any.
    pub fn next_tx_buffer(&mut self) -> (r: Option<usize>)
        requires
            old(self).well_formed(),
        ensures
            final(self).well_formed(),
            r is None <==> old(self).spec_ring().slots().len() == 0,
            r is Some ==> r->0 == old(self).spec_ring().slots()[0] && final(self).spec_ring().slots()
                == old(self).spec_ring().slots().drop_first(),
            r is None ==> final(self).spec_ring() == old(self).spec_ring(),
            final(self).spec_ring().spec_capacity() == old(self).spec_ring().spec_capacity(),
            final(self).spec_ring().spec_write_slot() == old(self).spec_ring().spec_write_slot(),
            final(self).is_running() == old(self).is_running(),
            final(self).spec_stats() == old(self).spec_stats(),
            final(self).spec_tx_state() == old(self).spec_tx_state(),
            final(self).spec_rx_state() == old(self).spec_rx_state(),
            final(self).spec_tx_timestamp() == old(self).spec_tx_timestamp(),
            final(self).spec_rx_timestamp() == old(self).spec_rx_timestamp(),
    {
        self.ring.pop()
    }

    /// Accounts the reply sent to a TX request: `sent` is the timestamp and
    /// sample count of the queued buffer sent, `None` when zeros were sent
    /// for want of one (an underrun). On success the TX socket waits for the
    /// next request; a send error is returned with the state unchanged.
    pub fn complete_tx_response(&mut self, sent: Option<(u64, usize)>, result: Result<(), zmq::Error>) -> (r:
        Result<(), InterfaceError>)
        requires
            sent is Some ==> ({
                let (timestamp, len) = sent->0;
                timestamp + len <= u64::MAX && old(self).spec_stats().tx_samples + len <= u64::MAX
            }),
            sent is None ==> old(self).spec_stats().tx_underruns < u64::MAX,
        ensures
            result is Err ==> r is Err && r->Err_0 == InterfaceError::ZmqError(result->Err_0) && *final(self)
                == *old(self),
            result is Ok ==> r is Ok && final(self).spec_tx_state() == TxState::WaitingForRequest,
            result is Ok && sent is Some ==> ({
                let (timestamp, len) = sent->0;
                &&& final(self).spec_tx_timestamp() == timestamp + len
                &&& final(self).spec_stats() == (RfStats {
                    tx_samples: (old(self).spec_stats().tx_samples + len) as u64,
                    ..old(self).spec_stats()
                })
            }),
            result is Ok && sent is None ==> final(self).spec_tx_timestamp() == old(self).spec_tx_timestamp()
                && final(self).spec_stats() == (RfStats {
                tx_underruns: (old(self).spec_stats().tx_underruns + 1) as u64,
                ..old(self).spec_stats()
            }),
            final(self).is_running() == old(self).is_running(),
            final(self).spec_ring() == old(self).spec_ring(),
            final(self).spec_rx_state() == old(self).spec_rx_state(),
            final(self).spec_rx_timestamp() == old(self).spec_rx_timestamp(),
    {
        match result {
            Err(e) => Err(InterfaceError::ZmqError(e)),
            Ok(()) => {
                match sent {
                    Some((timestamp, len)) => {
                        self.tx_timestamp = timestamp + len as u64;
                        self.stats.tx_samples = self.stats.tx_samples + len as u64;
                    },
                    None => {
                        self.stats.tx_underruns = self.stats.tx_underruns + 1;
                    },
                }
                self.tx_state = TxState::WaitingForRequest;
                Ok(())
            },
        }
    }

    /// Queues a buffer for transmission: returns the ring slot to write it
    /// to. A full ring drops its oldest buffer and counts an underrun.
    /// `NotInitialized` when the link is not running.
    pub fn transmit(&mut self) -> (r: Result<usize, InterfaceError>)
        requires
            old(self).well_formed(),
            old(self).spec_stats().tx_underruns < u64::MAX,
        ensures
            final(self).well_formed(),
            !old(self).is_running() ==> r is Err && r->Err_0 is NotInitialized && *final(self) == *old(self),
            old(self).is_running() ==> ({
                let full = old(self).spec_ring().slots().len() + 1 == old(self).spec_ring().spec_capacity();
                let s = old(self).spec_ring().spec_write_slot();
                &&& r == Ok::<usize, InterfaceError>(s)
                &&& final(self).spec_ring().slots() == (if full {
                    old(self).spec_ring().slots().push(s).drop_first()
                } else {
                    old(self).spec_ring().slots().push(s)
                })
                &&& final(self).spec_stats() == (if full {
                    RfStats { tx_underruns: (old(self).spec_stats().tx_underruns + 1) as u64, ..old(self).spec_stats() }
                } else {
                    old(self).spec_stats()
                })
            }),
            final(self).spec_ring().spec_capacity() == old(self).spec_ring().spec_capacity(),
            final(self).is_running() == old(self).is_running(),
            final(self).spec_tx_state() == old(self).spec_tx_state(),
            final(self).spec_rx_state() == old(self).spec_rx_state(),
            final(self).spec_tx_timestamp() == old(self).spec_tx_timestamp(),
            final(self).spec_rx_timestamp() == old(self).spec_rx_timestamp(),
    {
        if !self.running {
            return Err(InterfaceError::NotInitialized);
        }
        let (slot, overflow) = self.ring.push();
        if overflow {
            self.stats.tx_underruns = self.stats.tx_underruns + 1;
        }
        Ok(slot)
    }

    /// The RX request was sent: the reply is awaited.
    pub fn rx_request_sent(&mut self)
        ensures
            final(self).spec_rx_state() == RxState::WaitingForResponse,
            final(self).is_running() == old(self).is_running(),
            final(self).spec_ring() == old(self).spec_ring(),
            final(self).spec_stats() == old(self).spec_stats(),
            final(self).spec_tx_state() == old(self).spec_tx_state(),
            final(self).spec_tx_timestamp() == old(self).spec_tx_timestamp(),
            final(self).spec_rx_timestamp() == old(self).spec_rx_timestamp(),
    {
        self.rx_state = RxState::WaitingForResponse;
    }

    /// A reply of `n` samples arrived: returns the buffer's timestamp (the
    /// RX time before it), advances the RX time and sample count, and makes
    /// the socket ready for the next request.
    pub fn rx_samples_received(&mut self, n: usize) -> (ts: u64)
        requires
            old(self).spec_rx_timestamp() + n <= u64::MAX,
            old(self).spec_stats().rx_samples + n <= u64::MAX,
        ensures
            ts == old(self).spec_rx_timestamp(),
            final(self).spec_rx_timestamp() == old(self).spec_rx_timestamp() + n,
            final(self).spec_stats() == (RfStats {
                rx_samples: (old(self).spec_stats().rx_samples + n) as u64,
                ..old(self).spec_stats()
            }),
            final(self).spec_rx_state() == RxState::ReadyToRequest,
            final(self).is_running() == old(self).is_running(),
            final(self).spec_ring() == old(self).spec_ring(),
            final(self).spec_tx_state() == old(self).spec_tx_state(),
            final(self).spec_tx_timestamp() == old(self).spec_tx_timestamp(),
    {
        let ts = self.rx_timestamp;
        self.rx_timestamp = self.rx_timestamp + n as u64;
        self.stats.rx_samples = self.stats.rx_samples + n as u64;
        self.rx_state = RxState::ReadyToRequest;
        ts
    }

    /// Receiving the reply failed: the socket is ready for a new request.
    pub fn rx_receive_failed(&mut self)
        ensures
            final(self).spec_rx_state() == RxState::ReadyToRequest,
            final(self).is_running() == old(self).is_running(),
            final(self).spec_ring() == old(self).spec_ring(),
            final(self).spec_stats() == old(self).spec_stats(),
            final(self).spec_tx_state() == old(self).spec_tx_state(),
            final(self).spec_tx_timestamp() == old(self).spec_tx_timestamp(),
            final(self).spec_rx_timestamp() == old(self).spec_rx_timestamp(),
    {
        self.rx_state = RxState::ReadyToRequest;
    }

    /// Running flag.
    pub fn is_running_now(&self) -> (b: bool)
        ensures
            b == self.is_running(),
    {
        self.running
    }

    /// RX socket state.
    pub fn rx_state(&self) -> (s: RxState)
        ensures
            s == self.spec_rx_state(),
    {
        self.rx_state
    }

    /// Current TX timestamp.
    pub fn tx_timestamp(&self) -> (t: u64)
        ensures
            t == self.spec_tx_timestamp(),
    {
        self.tx_timestamp
    }

    /// Current RX timestamp.
    pub fn rx_timestamp(&self) -> (t: u64)
        ensures
            t == self.spec_rx_timestamp(),
    {
        self.rx_timestamp
    }

    /// The statistics.
    pub fn stats(&self) -> (s: RfStats)
        ensures
            s == self.spec_stats(),
    {
        self.stats
    }

    /// Stops the link.
    pub fn shutdown(&mut self) -> (r: Result<(), InterfaceError>)
        ensures
            r is Ok,
            !final(self).is_running(),
            final(self).spec_ring() == old(self).spec_ring(),
            final(self).spec_stats() == old(self).spec_stats(),
            final(self).spec_tx_state() == old(self).spec_tx_state(),
            final(self).spec_rx_state() == old(self).spec_rx_state(),
            final(self).spec_tx_timestamp() == old(self).spec_tx_timestamp(),
            final(self).spec_rx_timestamp() == old(self).spec_rx_timestamp(),
    {
        self.running = false;
        Ok(())
    }
}

impl RfStats {
    /// All counters at zero.
    pub open spec fn default_spec() -> RfStats {
        RfStats {
            tx_samples: 0,
            rx_samples: 0,
            tx_underruns: 0,
            rx_overruns: 0,
            tx_late_packets: 0,
            rx_late_packets: 0,
        }
    }

    /// All counters at zero.
    pub fn zero() -> (s: RfStats)
        ensures
            s == RfStats::default_spec(),
    {
        RfStats {
            tx_samples: 0,
            rx_samples: 0,
            tx_underruns: 0,
            rx_overruns: 0,
            tx_late_packets: 0,
            rx_late_packets: 0,
        }
    }
}

/// Number of complex samples in a raw buffer of interleaved 32-bit float
/// I/Q pairs; `InvalidMessage` when the length is not a multiple of 8.
pub fn iq_sample_count(byte_len: usize) -> (r: Result<usize, InterfaceError>)
    ensures
        byte_len % 8 == 0 ==> r is Ok && r->Ok_0 == byte_len / 8,
        byte_len % 8 != 0 ==> r is Err && r->Err_0 is InvalidMessage,
{
    if byte_len % 8 != 0 {
        return Err(InterfaceError::InvalidMessage);
    }
    Ok(byte_len / 8)
}

} // verus!
