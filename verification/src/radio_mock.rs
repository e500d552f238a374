//! An in-process simulated radio: a fully-connected broadcast bus of
//! endpoints joined by ordered, unbounded queues, satisfying the same radio
//! capability contract as the hardware driver.
//!
//! The whole bus is one single-owner value; `select` chooses which endpoint
//! the handle currently acts as. Every `transmit_payload` fans the payload,
//! cut to 255 bytes, out to every other endpoint's inbound queue and never to
//! the sender's own; `read_packet` pops the oldest packet of the selected
//! endpoint's queue, so delivery between any fixed pair of endpoints is in
//! first-in-first-out order.

use vstd::prelude::*;

use crate::radio_traits::{spec_payload_trunc, DelayMs, EmbeddedRadio};

verus! {

broadcast use vstd::std_specs::vec::vec_clone_deep_view_proof;

/// Errors of a simulated radio, tagged by the failing direction. The
/// in-process bus cannot actually fail: every operation returns `Ok`.
#[derive(Debug)]
pub enum LoraError<RX, TX> {
    Receiver(RX),
    Transmitter(TX),
}

/// The inbox sequence after a fan-out from `from`, stopped before endpoint
/// `upto`: every other endpoint below `upto` has the truncated payload at the
/// back of its queue.
pub open spec fn spec_fanout_upto(
    inboxes: Seq<Seq<Seq<u8>>>,
    from: int,
    p: Seq<u8>,
    upto: int,
) -> Seq<Seq<Seq<u8>>> {
    inboxes.map(
        |i: int, q: Seq<Seq<u8>>|
            if i == from || i >= upto {
                q
            } else {
                q.push(spec_payload_trunc(p))
            },
    )
}

/// The inbox sequence after a full fan-out from `from`: the truncated payload
/// lands at the back of every other endpoint's queue, and never at `from`.
pub open spec fn spec_fanout(inboxes: Seq<Seq<Seq<u8>>>, from: int, p: Seq<u8>) -> Seq<
    Seq<Seq<u8>>,
> {
    spec_fanout_upto(inboxes, from, p, inboxes.len() as int)
}

/// Every queued packet respects the 255-byte payload cap.
pub open spec fn packets_capped(inboxes: Seq<Seq<Seq<u8>>>) -> bool {
    forall|i: int, j: int|
        0 <= i < inboxes.len() && 0 <= j < inboxes[i].len() ==> (#[trigger] inboxes[i][j].len())
            <= 255
}

/// A byte vector's deep view is its view.
proof fn lemma_bytes_deep_view(v: &Vec<u8>)
    ensures
        v.deep_view() == v@,
{
    assert(v.deep_view() =~= v@);
}

/// Cuts a payload to at most 255 bytes: anything longer loses its tail.
fn truncate_payload(payload: &[u8]) -> (r: Vec<u8>)
    ensures
        r@ == spec_payload_trunc(payload@),
{
    let n: usize = if payload.len() > 255 {
        255
    } else {
        payload.len()
    };
    let mut v: Vec<u8> = Vec::new();
    let mut i: usize = 0;
    while i < n
        invariant
            i <= n,
            n <= payload@.len(),
            n == (if payload@.len() > 255 {
                255int
            } else {
                payload@.len() as int
            }),
            v@ == payload@.take(i as int),
        decreases n - i,
    {
        let b = payload[i];
        v.push(b);
        i = i + 1;
        proof {
            assert(payload@.take(i as int) =~= payload@.take(i - 1).push(payload@[i - 1]));
        }
    }
    proof {
        assert(payload@.take(n as int) =~= spec_payload_trunc(payload@));
    }
    v
}

/// A simulated radio: the broadcast bus of all endpoints, acting as one
/// selectable endpoint at a time.
pub struct MockLora {
    local: usize,
    inboxes: Vec<Vec<Vec<u8>>>,
}

impl MockLora {
    /// The selected endpoint is on the bus, and no queued packet exceeds the
    /// 255-byte payload cap.
    #[verifier::type_invariant]
    spec fn wf(self) -> bool {
        &&& self.local < self.inboxes@.len()
        &&& packets_capped(self.inboxes.deep_view())
    }

    /// The pending packets of every endpoint, oldest first.
    pub closed spec fn inboxes_view(&self) -> Seq<Seq<Seq<u8>>> {
        self.inboxes.deep_view()
    }

    /// The endpoint this handle currently acts as.
    pub closed spec fn spec_local(&self) -> int {
        self.local as int
    }

    /// Builds a fully-connected broadcast bus of `num_radios` endpoints with
    /// empty queues, acting as endpoint 0.
    pub fn new(num_radios: usize) -> (r: MockLora)
        requires
            1 <= num_radios,
        ensures
            r.inboxes_view().len() == num_radios,
            forall|i: int|
                0 <= i < num_radios ==> #[trigger] r.inboxes_view()[i] == Seq::<Seq<u8>>::empty(),
            r.spec_local() == 0,
    {
        let mut inboxes: Vec<Vec<Vec<u8>>> = Vec::new();
        let mut i: usize = 0;
        while i < num_radios
            invariant
                i <= num_radios,
                inboxes@.len() == i,
                forall|k: int| 0 <= k < i ==> (#[trigger] inboxes@[k]@.len()) == 0,
            decreases num_radios - i,
        {
            inboxes.push(Vec::new());
            i = i + 1;
        }
        proof {
            assert forall|k: int| 0 <= k < num_radios implies #[trigger] inboxes.deep_view()[k]
                == Seq::<Seq<u8>>::empty() by {
                assert(inboxes.deep_view()[k] =~= Seq::<Seq<u8>>::empty());
            }
            assert(packets_capped(inboxes.deep_view()));
        }
        MockLora { local: 0, inboxes }
    }

    /// Selects which endpoint this handle acts as from now on.
    pub fn select(&mut self, endpoint: usize)
        requires
            endpoint < old(self).inboxes_view().len(),
        ensures
            final(self).spec_local() == endpoint,
            final(self).inboxes_view() == old(self).inboxes_view(),
    {
        proof {
            use_type_invariant(&*self);
        }
        self.local = endpoint;
    }

    /// Returns the number of endpoints on the bus.
    pub fn num_endpoints(&self) -> (n: usize)
        ensures
            n == self.inboxes_view().len(),
    {
        self.inboxes.len()
    }
}

impl EmbeddedRadio for MockLora {
    type Error = LoraError<(), ()>;

    /// Fans the payload, cut to 255 bytes, out to every other endpoint's
    /// queue and never to the sender's own. In-process delivery cannot fail.
    fn transmit_payload(&mut self, payload: &[u8]) -> (r: Result<(), Self::Error>)
        ensures
            r is Ok,
            final(self).spec_local() == old(self).spec_local(),
            final(self).inboxes_view() == spec_fanout(
                old(self).inboxes_view(),
                old(self).spec_local(),
                payload@,
            ),
    {
        proof {
            use_type_invariant(&*self);
        }
        let trunc = truncate_payload(payload);
        let local = self.local;
        let mut boxes = self.inboxes.clone();
        let n = boxes.len();
        let mut r: usize = 0;
        while r < n
            invariant
                r <= n,
                n == boxes@.len(),
                local < n,
                local == old(self).spec_local(),
                trunc@ == spec_payload_trunc(payload@),
                trunc@.len() <= 255,
                packets_capped(boxes.deep_view()),
                boxes.deep_view() == spec_fanout_upto(
                    old(self).inboxes_view(),
                    old(self).spec_local(),
                    payload@,
                    r as int,
                ),
            decreases n - r,
        {
            if r != local {
                let packet = trunc.clone();
                proof {
                    lemma_bytes_deep_view(&packet);
                    lemma_bytes_deep_view(&trunc);
                }
                let ghost pre = boxes.deep_view();
                boxes[r].push(packet);
                proof {
                    assert(boxes.deep_view() =~~= pre.update(
                        r as int,
                        pre[r as int].push(spec_payload_trunc(payload@)),
                    ));
                }
            }
            r = r + 1;
            proof {
                assert(boxes.deep_view() =~~= spec_fanout_upto(
                    old(self).inboxes_view(),
                    old(self).spec_local(),
                    payload@,
                    r as int,
                ));
            }
        }
        self.inboxes = boxes;
        Ok(())
    }

    /// Transmits, then polls the (always idle) transmitter once, as the
    /// hardware driver would.
    fn transmit_payload_busy(&mut self, payload: &[u8]) -> (r: Result<(), Self::Error>)
        ensures
            r is Ok,
            final(self).spec_local() == old(self).spec_local(),
            final(self).inboxes_view() == spec_fanout(
                old(self).inboxes_view(),
                old(self).spec_local(),
                payload@,
            ),
    {
        match self.transmit_payload(payload) {
            Err(e) => return Err(e),
            Ok(()) => {},
        }
        let ghost mid = *self;
        loop
            invariant
                *self == mid,
            ensures
                *self == mid,
            decreases 0int,
        {
            let t = match self.transmitting() {
                Err(e) => return Err(e),
                Ok(t) => t,
            };
            if !t {
                break;
            }
        }
        Ok(())
    }

    /// A simulated send takes no time: the transmitter is never busy.
    fn transmitting(&mut self) -> (r: Result<bool, Self::Error>)
        ensures
            r matches Ok(b) && !b,
            *final(self) == *old(self),
    {
        Ok(false)
    }

    /// Pops the oldest packet pending at the selected endpoint; an empty
    /// queue yields `Ok(None)` and changes nothing.
    fn read_packet(&mut self) -> (r: Result<Option<Vec<u8>>, Self::Error>)
        ensures
            r is Ok,
            final(self).spec_local() == old(self).spec_local(),
            old(self).inboxes_view()[old(self).spec_local()].len() == 0 ==> (r matches Ok(None)
                && final(self).inboxes_view() == old(self).inboxes_view()),
            old(self).inboxes_view()[old(self).spec_local()].len() > 0 ==> (r matches Ok(Some(p))
                && p@ == old(self).inboxes_view()[old(self).spec_local()][0] && final(self).inboxes_view() == old(self).inboxes_view().update(
                old(self).spec_local(),
                old(self).inboxes_view()[old(self).spec_local()].drop_first(),
            )),
    {
        proof {
            use_type_invariant(&*self);
        }
        let l = self.local;
        if self.inboxes[l].len() == 0 {
            proof {
                assert(old(self).inboxes_view()[old(self).spec_local()].len() == 0);
            }
            return Ok(None);
        }
        let ghost pre = self.inboxes.deep_view();
        let mut boxes = self.inboxes.clone();
        let packet = boxes[l].remove(0);
        proof {
            lemma_bytes_deep_view(&packet);
            assert(packet@ == pre[l as int][0]);
            assert(packet@.len() <= 255);
            assert(boxes.deep_view() =~~= pre.update(l as int, pre[l as int].drop_first()));
            assert(packets_capped(boxes.deep_view()));
        }
        self.inboxes = boxes;
        Ok(Some(packet))
    }

    /// Polls `read_packet` once per millisecond: a pending packet is returned
    /// at once; an empty queue stays empty, so the poll expires after exactly
    /// `timeout_ms` delay ticks (none for a negative timeout) with
    /// `Ok(None)`.
    fn read_packet_timeout<D: DelayMs>(&mut self, timeout_ms: i32, delay: &mut D) -> (r: Result<
        Option<Vec<u8>>,
        Self::Error,
    >)
        ensures
            r is Ok,
            final(self).spec_local() == old(self).spec_local(),
            old(self).inboxes_view()[old(self).spec_local()].len() == 0 ==> (r matches Ok(None)
                && final(self).inboxes_view() == old(self).inboxes_view() && final(delay).ticks()
                == old(delay).ticks() + (if timeout_ms >= 0 {
                timeout_ms as int
            } else {
                0
            })),
            old(self).inboxes_view()[old(self).spec_local()].len() > 0 ==> (r matches Ok(Some(p))
                && p@ == old(self).inboxes_view()[old(self).spec_local()][0] && final(self).inboxes_view() == old(self).inboxes_view().update(
                old(self).spec_local(),
                old(self).inboxes_view()[old(self).spec_local()].drop_first(),
            ) && final(delay).ticks() == old(delay).ticks()),
            final(delay).ticks() <= old(delay).ticks() + (if timeout_ms >= 0 {
                timeout_ms as int
            } else {
                0
            }),
    {
        let mut count: i32 = 0;
        loop
            invariant
                0 <= count,
                timeout_ms >= 0 ==> count <= timeout_ms,
                timeout_ms < 0 ==> count == 0,
                delay.ticks() == old(delay).ticks() + count,
                self.inboxes_view() == old(self).inboxes_view(),
                self.spec_local() == old(self).spec_local(),
                count > 0 ==> old(self).inboxes_view()[old(self).spec_local()].len() == 0,
            decreases timeout_ms - count,
        {
            let packet = match self.read_packet() {
                Err(e) => return Err(e),
                Ok(p) => p,
            };
            if packet.is_some() {
                return Ok(packet);
            }
            if count >= timeout_ms {
                return Ok(None);
            }
            count = count + 1;
            delay.delay_ms(1);
        }
    }
}

/// Law: one fan-out delivers the payload, truncated, intact and in order.
/// The packet lands at the back of every other endpoint's queue, so a
/// receiver that drains its queue sees packets from a fixed sender in the
/// order they were sent; the sender's own queue is untouched.
pub proof fn lemma_fanout_delivery(inboxes: Seq<Seq<Seq<u8>>>, from: int, to: int, p: Seq<u8>)
    requires
        0 <= from < inboxes.len(),
        0 <= to < inboxes.len(),
        from != to,
    ensures
        spec_fanout(inboxes, from, p).len() == inboxes.len(),
        spec_fanout(inboxes, from, p)[to] == inboxes[to].push(spec_payload_trunc(p)),
        spec_fanout(inboxes, from, p)[from] == inboxes[from],
        inboxes[to].len() == 0 ==> spec_fanout(inboxes, from, p)[to][0] == spec_payload_trunc(p)
            && spec_fanout(inboxes, from, p)[to].len() == 1,
{
}

/// Law: packets from one fixed sender reach a fixed receiver in the order
/// they were sent, whatever older traffic the receiver's queue already
/// holds: two fan-outs append the two truncated payloads to the back of the
/// receiver's queue in transmission order, so a receiver popping from the
/// front sees the first strictly before the second, after anything older.
pub proof fn lemma_fanout_fifo_order(
    inboxes: Seq<Seq<Seq<u8>>>,
    from: int,
    to: int,
    p1: Seq<u8>,
    p2: Seq<u8>,
)
    requires
        0 <= from < inboxes.len(),
        0 <= to < inboxes.len(),
        from != to,
    ensures
        spec_fanout(spec_fanout(inboxes, from, p1), from, p2)[to] == inboxes[to].push(
            spec_payload_trunc(p1),
        ).push(spec_payload_trunc(p2)),
        spec_fanout(spec_fanout(inboxes, from, p1), from, p2)[to].len() == inboxes[to].len() + 2,
        spec_fanout(spec_fanout(inboxes, from, p1), from, p2)[to][inboxes[to].len() as int]
            == spec_payload_trunc(p1),
        spec_fanout(spec_fanout(inboxes, from, p1), from, p2)[to][inboxes[to].len() as int + 1]
            == spec_payload_trunc(p2),
{
}

/// Law: a payload of at most 255 bytes is delivered unchanged; a longer one
/// is delivered as exactly its first 255 bytes.
pub proof fn lemma_truncation(p: Seq<u8>)
    ensures
        p.len() <= 255 ==> spec_payload_trunc(p) == p,
        p.len() > 255 ==> spec_payload_trunc(p) == p.take(255) && spec_payload_trunc(p).len()
            == 255,
{
}

} // verus!
