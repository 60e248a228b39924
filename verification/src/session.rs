//! The per-session request table and the reader pump's frame triage, and
//! the process-wide bounded, lossy event ring.

use vstd::prelude::*;

use crate::json::{spec_get, spec_uint, JsonValue};
use crate::text::str_to_string;

verus! {

/// The request-correlation state of one workspace session: the next
/// request id and the ids still awaiting a reply from the child.
pub struct SessionState {
    pub next_request_id: u64,
    pub pending: Vec<u64>,
}

pub open spec fn spec_has_id(v: Seq<u64>, id: u64) -> bool {
    exists|i: int| 0 <= i < v.len() && v[i] == id
}

impl SessionState {
    /// Pending ids are distinct and below the allocation counter.
    pub open spec fn wf(self) -> bool {
        &&& forall|i: int, j: int|
            0 <= i < j < self.pending@.len() ==> self.pending@[i] != self.pending@[j]
        &&& forall|i: int|
            0 <= i < self.pending@.len() ==> #[trigger] self.pending@[i] < self.next_request_id
    }

    pub fn new() -> (r: SessionState)
        ensures
            r.wf(),
            r.pending@.len() == 0,
            r.next_request_id == 1,
    {
        SessionState { next_request_id: 1, pending: Vec::new() }
    }

    /// Allocates a fresh request id and installs its reply slot.
    pub fn alloc_request_id(&mut self) -> (r: u64)
        requires
            old(self).wf(),
            old(self).next_request_id < u64::MAX,
        ensures
            final(self).wf(),
            r == old(self).next_request_id,
            final(self).next_request_id == old(self).next_request_id + 1,
            final(self).pending@ == old(self).pending@.push(r),
            !spec_has_id(old(self).pending@, r),
    {
        let id = self.next_request_id;
        self.next_request_id = id + 1;
        self.pending.push(id);
        proof {
            if spec_has_id(old(self).pending@, id) {
                let i = choose|i: int|
                    0 <= i < old(self).pending@.len() && old(self).pending@[i] == id;
                assert(false);
            }
        }
        id
    }

    /// Resolves the slot of a child reply: the id leaves the table exactly
    /// when it was pending; an unknown id changes nothing, and the frame
    /// is dropped.
    pub fn fulfil(&mut self, id: u64) -> (r: bool)
        requires
            old(self).wf(),
        ensures
            final(self).wf(),
            final(self).next_request_id == old(self).next_request_id,
            r == spec_has_id(old(self).pending@, id),
            forall|x: u64|
                spec_has_id(final(self).pending@, x) <==> (spec_has_id(old(self).pending@, x) && x
                    != id),
    {
        let ghost orig = self.pending@;
        let mut i: usize = 0;
        while i < self.pending.len()
            invariant
                self == old(self),
                old(self).wf(),
                orig == self.pending@,
                0 <= i <= orig.len(),
                forall|k: int| 0 <= k < i ==> orig[k] != id,
            decreases orig.len() - i,
        {
            if self.pending[i] == id {
                self.pending.remove(i);
                proof {
                    let cur = self.pending@;
                    assert(cur =~= orig.remove(i as int));
                    assert forall|p: int, q: int| 0 <= p < q < cur.len() implies cur[p]
                        != cur[q] by {
                        let p0: int = if p < i {
                            p
                        } else {
                            p + 1
                        };
                        let q0: int = if q < i {
                            q
                        } else {
                            q + 1
                        };
                        assert(cur[p] == orig[p0] && cur[q] == orig[q0]);
                    }
                    assert forall|p: int| 0 <= p < cur.len() implies #[trigger] cur[p] < old(
                        self,
                    ).next_request_id by {
                        if p < i {
                            assert(cur[p] == orig[p]);
                        } else {
                            assert(cur[p] == orig[p + 1]);
                        }
                    }
                    assert forall|x: u64|
                        spec_has_id(cur, x) <==> (spec_has_id(orig, x) && x != id) by {
                        if spec_has_id(cur, x) {
                            let p = choose|p: int| 0 <= p < cur.len() && cur[p] == x;
                            let p0: int = if p < i {
                                p
                            } else {
                                p + 1
                            };
                            assert(orig[p0] == x);
                            assert(p0 != i);
                        }
                        if spec_has_id(orig, x) && x != id {
                            let p0 = choose|p0: int| 0 <= p0 < orig.len() && orig[p0] == x;
                            assert(p0 != i);
                            let p: int = if p0 < i {
                                p0
                            } else {
                                p0 - 1
                            };
                            assert(cur[p] == x);
                        }
                    }
                    assert(spec_has_id(orig, id)) by {
                        assert(orig[i as int] == id);
                    }
                }
                return true;
            }
            i += 1;
        }
        proof {
            if spec_has_id(orig, id) {
                let p = choose|p: int| 0 <= p < orig.len() && orig[p] == id;
                assert(false);
            }
        }
        false
    }

    /// Tears the table down: every pending slot is handed back so the
    /// caller can fail it with the session-closed error, and none remains.
    pub fn teardown(&mut self) -> (r: Vec<u64>)
        ensures
            final(self).wf(),
            final(self).pending@.len() == 0,
            r@ == old(self).pending@,
            final(self).next_request_id == old(self).next_request_id,
    {
        let mut drained: Vec<u64> = Vec::new();
        core::mem::swap(&mut drained, &mut self.pending);
        drained
    }
}

/// The error every slot receives when its session is torn down.
pub fn session_closed_error() -> (r: String)
    ensures
        r@ == "session closed"@,
{
    str_to_string("session closed")
}

/// The number of a `u64` member, as child frames carry their ids.
pub open spec fn spec_get_u64(v: JsonValue, key: Seq<char>) -> Option<u64> {
    match spec_get(v, key) {
        Some(x) => spec_uint(x),
        None => None,
    }
}

/// What the reader pump does with one child frame.
pub enum FrameKind {
    /// An `id` plus a `result` or `error` member: fulfil the slot.
    Response { id: u64 },
    /// An `id` plus a `method` member: surface to the clients, who reply
    /// later through the response path.
    ServerRequest { id: u64 },
    /// Anything else: surface as a notification.
    Notification,
}

/// Triages one frame read from a child's stdout.
pub fn classify_child_frame(v: &JsonValue) -> (r: FrameKind)
    ensures
        match r {
            FrameKind::Response { id } => {
                &&& spec_get_u64(*v, "id"@) == Some(id)
                &&& (spec_get(*v, "result"@) is Some || spec_get(*v, "error"@) is Some)
            },
            FrameKind::ServerRequest { id } => {
                &&& spec_get_u64(*v, "id"@) == Some(id)
                &&& spec_get(*v, "result"@) is None
                &&& spec_get(*v, "error"@) is None
                &&& spec_get(*v, "method"@) is Some
            },
            FrameKind::Notification => spec_get_u64(*v, "id"@) is None || (spec_get(*v, "result"@)
                is None && spec_get(*v, "error"@) is None && spec_get(*v, "method"@) is None),
        },
{
    let id = match v.get("id") {
        Some(x) => x.as_u64(),
        None => None,
    };
    match id {
        Some(id) => {
            let has_reply = match v.get("result") {
                Some(_) => true,
                None => matches!(v.get("error"), Some(_)),
            };
            if has_reply {
                FrameKind::Response { id }
            } else if matches!(v.get("method"), Some(_)) {
                FrameKind::ServerRequest { id }
            } else {
                FrameKind::Notification
            }
        },
        None => FrameKind::Notification,
    }
}

/// A bounded ring of events. Publication never waits and never fails:
/// when the ring is full the oldest event is overwritten, so no
/// subscriber — however slow — can hold the publisher back.
pub struct EventRing<T> {
    pub capacity: usize,
    /// Sequence number of the oldest buffered event.
    pub start: u64,
    pub buffer: Vec<T>,
}

/// A subscriber's cursor into the ring: the sequence number it reads next.
pub struct Subscriber {
    pub pos: u64,
}

/// One attempt to read past events from the ring.
pub enum Recv<T> {
    /// The next event in order.
    Event(T),
    /// The subscriber fell behind the buffer: it skips the missed events
    /// and resumes at the oldest buffered one, without disconnecting.
    Lagged,
    /// Nothing published yet beyond the cursor.
    Empty,
}

impl<T: Clone> EventRing<T> {
    pub open spec fn wf(self) -> bool {
        &&& 1 <= self.capacity
        &&& self.buffer@.len() <= self.capacity
        &&& self.start + self.buffer@.len() <= u64::MAX
    }

    pub fn new(capacity: usize) -> (r: EventRing<T>)
        requires
            capacity >= 1,
        ensures
            r.wf(),
            r.capacity == capacity,
            r.start == 0,
            r.buffer@.len() == 0,
    {
        EventRing { capacity, start: 0, buffer: Vec::new() }
    }

    /// Publishes one event. Total and independent of every subscriber:
    /// when the ring is full, the oldest event falls out instead of the
    /// publisher waiting.
    pub fn publish(&mut self, e: T)
        requires
            old(self).wf(),
            old(self).start + old(self).buffer@.len() < u64::MAX,
        ensures
            final(self).wf(),
            final(self).capacity == old(self).capacity,
            final(self).buffer@.len() <= old(self).capacity,
            if old(self).buffer@.len() == old(self).capacity {
                final(self).buffer@ == old(self).buffer@.skip(1).push(e) && final(self).start
                    == old(self).start + 1
            } else {
                final(self).buffer@ == old(self).buffer@.push(e) && final(self).start == old(
                    self,
                ).start
            },
    {
        if self.buffer.len() == self.capacity {
            self.buffer.remove(0);
            self.start = self.start + 1;
            proof {
                assert(self.buffer@ =~= old(self).buffer@.skip(1));
            }
        }
        self.buffer.push(e);
    }

    /// A new subscription: it observes only events published after this
    /// point.
    pub fn subscribe(&self) -> (r: Subscriber)
        requires
            self.wf(),
        ensures
            r.pos == self.start + self.buffer@.len(),
    {
        Subscriber { pos: self.start + (self.buffer.len() as u64) }
    }

    /// Reads the subscriber's next event, skipping to the oldest buffered
    /// one when the ring has already dropped its position.
    pub fn recv(&self, sub: &mut Subscriber) -> (r: Recv<T>)
        requires
            self.wf(),
            old(sub).pos <= self.start + self.buffer@.len(),
        ensures
            final(sub).pos <= self.start + self.buffer@.len(),
            match r {
                Recv::Event(e) => {
                    &&& old(sub).pos >= self.start
                    &&& old(sub).pos < self.start + self.buffer@.len()
                    &&& vstd::pervasive::cloned::<T>(
                        self.buffer@[old(sub).pos - self.start],
                        e,
                    )
                    &&& final(sub).pos == old(sub).pos + 1
                },
                Recv::Lagged => {
                    &&& old(sub).pos < self.start
                    &&& final(sub).pos == self.start
                },
                Recv::Empty => {
                    &&& old(sub).pos == self.start + self.buffer@.len()
                    &&& final(sub).pos == old(sub).pos
                },
            },
    {
        if sub.pos < self.start {
            sub.pos = self.start;
            return Recv::Lagged;
        }
        let offset = sub.pos - self.start;
        if offset >= self.buffer.len() as u64 {
            return Recv::Empty;
        }
        let e = self.buffer[offset as usize].clone();
        sub.pos = sub.pos + 1;
        Recv::Event(e)
    }
}

} // verus!
