use std::collections::HashMap;
use vstd::prelude::*;

use crate::packet::{assemble, CommandType, Packet, RequestId, RequestIdGenerator};

verus! {

broadcast use vstd::std_specs::hash::group_hash_axioms;

/// Number of little-endian signed values in a sensor report.
pub const SENSOR_COUNT: usize = 9;

/// A new request with id `id` can be registered: the table has a free slot
/// and no request with that id is in flight.
pub open spec fn can_register<T>(entries: Map<u16, T>, capacity: nat, id: u16) -> bool {
    entries.len() < capacity && !entries.contains_key(id)
}

/// Requests awaiting their response, each with the destination its response
/// goes to. Its capacity is fixed: a full table refuses new requests.
pub struct PendingRequests<T> {
    requests: HashMap<u16, T>,
    capacity: usize,
}

impl<T> PendingRequests<T> {
    /// Request id to destination, for the requests in flight.
    pub closed spec fn entries(&self) -> Map<u16, T> {
        self.requests@
    }

    pub closed spec fn capacity(&self) -> nat {
        self.capacity as nat
    }

    pub closed spec fn wf(&self) -> bool {
        self.requests@.len() <= self.capacity
    }

    pub fn new(capacity: usize) -> (r: Self)
        ensures
            r.wf(),
            r.entries() == Map::<u16, T>::empty(),
            r.capacity() == capacity,
    {
        PendingRequests { requests: HashMap::new(), capacity }
    }

    pub fn len(&self) -> (r: usize)
        ensures
            r == self.entries().len(),
    {
        self.requests.len()
    }

    /// Registers `dest` as the destination of the response to `id`; where
    /// the table is full or `id` is already in flight, hands `dest` back.
    pub fn register(&mut self, id: RequestId, dest: T) -> (r: Result<(), T>)
        requires
            old(self).wf(),
        ensures
            final(self).wf(),
            final(self).capacity() == old(self).capacity(),
            r is Ok <==> can_register(old(self).entries(), old(self).capacity(), id.0),
            r is Ok ==> final(self).entries() == old(self).entries().insert(id.0, dest),
            r matches Err(d) ==> d == dest && final(self).entries() == old(self).entries(),
    {
        if self.requests.len() >= self.capacity || self.requests.contains_key(&id.0) {
            return Err(dest);
        }
        self.requests.insert(id.0, dest);
        proof {
            assert(self.requests@.dom() =~= old(self).requests@.dom().insert(id.0));
        }
        Ok(())
    }

    /// Removes the entry for `id` and returns its destination, if it was
    /// still in flight.
    pub fn take(&mut self, id: RequestId) -> (r: Option<T>)
        requires
            old(self).wf(),
        ensures
            final(self).wf(),
            final(self).capacity() == old(self).capacity(),
            final(self).entries() == old(self).entries().remove(id.0),
            r == if old(self).entries().contains_key(id.0) {
                Some(old(self).entries()[id.0])
            } else {
                None
            },
    {
        let r = self.requests.remove(&id.0);
        proof {
            if old(self).requests@.contains_key(id.0) {
                assert(self.requests@.dom() =~= old(self).requests@.dom().remove(id.0));
            } else {
                assert(self.requests@ =~= old(self).requests@);
            }
        }
        r
    }
}

/// A response reaches the waiter registered under its request id, and only
/// that one: with two requests in flight under distinct ids, in whichever
/// order their responses come, each goes to its own destination, and once
/// delivered an id has no entry left for a duplicate to reach.
pub proof fn lemma_responses_reach_their_own_waiter<T>(
    entries: Map<u16, T>,
    first: u16,
    first_dest: T,
    second: u16,
    second_dest: T,
)
    requires
        first != second,
    ensures
        ({
            let both = entries.insert(first, first_dest).insert(second, second_dest);
            &&& both.contains_key(second) && both[second] == second_dest
            &&& both.remove(second).contains_key(first) && both.remove(second)[first] == first_dest
            &&& !both.remove(second).remove(first).contains_key(first)
            &&& !both.remove(second).remove(first).contains_key(second)
            &&& both.contains_key(first) && both[first] == first_dest
            &&& both.remove(first).contains_key(second) && both.remove(first)[second]
                == second_dest
        }),
{
}

/// The table after a run of requests, each registered and then given up
/// on its timeout; `None` where one of them could not be registered.
pub open spec fn after_timeouts<T>(entries: Map<u16, T>, capacity: nat, ids: Seq<u16>, dest: T) -> Option<
    Map<u16, T>,
>
    decreases ids.len(),
{
    if ids.len() == 0 {
        Some(entries)
    } else {
        match after_timeouts(entries, capacity, ids.drop_last(), dest) {
            None => None,
            Some(m) => if can_register(m, capacity, ids.last()) {
                Some(m.insert(ids.last(), dest).remove(ids.last()))
            } else {
                None
            },
        }
    }
}

/// Requests that time out give their slot back: from a table with a free
/// slot, any number of requests that each time out (more than the capacity
/// included) all register, and leave the table as it was.
pub proof fn lemma_timeouts_leak_no_slot<T>(
    entries: Map<u16, T>,
    capacity: nat,
    ids: Seq<u16>,
    dest: T,
)
    requires
        entries.dom().finite(),
        entries.len() < capacity,
        forall|i: int| 0 <= i < ids.len() ==> !entries.contains_key(#[trigger] ids[i]),
    ensures
        after_timeouts(entries, capacity, ids, dest) == Some(entries),
    decreases ids.len(),
{
    if ids.len() > 0 {
        let rest = ids.drop_last();
        assert forall|i: int| 0 <= i < rest.len() implies !entries.contains_key(#[trigger] rest[i]) by {
            assert(rest[i] == ids[i]);
        }
        lemma_timeouts_leak_no_slot(entries, capacity, rest, dest);
        let id = ids.last();
        assert(!entries.contains_key(ids[ids.len() - 1]));
        assert(entries.insert(id, dest).remove(id) =~= entries);
    }
}

/// The value of two bytes read as a little-endian two's complement integer.
pub open spec fn le_i16(lo: u8, hi: u8) -> int {
    if hi < 128 {
        lo + 256 * hi
    } else {
        lo + 256 * hi - 0x10000
    }
}

/// Issues commands and matches responses to them: it draws request ids and
/// keeps the table of requests in flight. The waiting itself is left to
/// the caller, which hands back what arrived or that the wait timed out.
pub struct CommandDispatcher<T> {
    ids: RequestIdGenerator,
    pending: PendingRequests<T>,
}

impl<T> CommandDispatcher<T> {
    /// The id the next request will carry.
    pub closed spec fn upcoming_id(&self) -> u16 {
        self.ids.upcoming()
    }

    pub closed spec fn entries(&self) -> Map<u16, T> {
        self.pending.entries()
    }

    pub closed spec fn capacity(&self) -> nat {
        self.pending.capacity()
    }

    pub closed spec fn wf(&self) -> bool {
        self.pending.wf()
    }

    pub fn new(capacity: usize) -> (r: Self)
        ensures
            r.wf(),
            r.entries() == Map::<u16, T>::empty(),
            r.capacity() == capacity,
            r.upcoming_id() == 0,
    {
        CommandDispatcher { ids: RequestIdGenerator::new(), pending: PendingRequests::new(capacity) }
    }

    pub fn in_flight(&self) -> (r: usize)
        ensures
            r == self.entries().len(),
    {
        self.pending.len()
    }

    /// Builds the request for `command` with a fresh id and registers `dest`
    /// for its response. Nothing is sent for a payload over the command's
    /// limit (no id is drawn then) or when the table is full or the id is
    /// still in flight.
    pub fn begin_request(&mut self, command: CommandType, payload: &[u8], dest: T) -> (r: Option<
        Packet,
    >)
        requires
            old(self).wf(),
        ensures
            final(self).wf(),
            final(self).capacity() == old(self).capacity(),
            payload@.len() > command.spec_max_payload() ==> r is None && *final(self) == *old(self),
            payload@.len() <= command.spec_max_payload() ==> {
                let id = old(self).upcoming_id();
                &&& final(self).upcoming_id() == (id + 1) % 0x10000
                &&& r is Some <==> can_register(old(self).entries(), old(self).capacity(), id)
                &&& r matches Some(p) ==> p@ == assemble(command, id, payload@) && p@.wf()
                &&& r is Some ==> final(self).entries() == old(self).entries().insert(id, dest)
                &&& r is None ==> final(self).entries() == old(self).entries()
            },
    {
        if payload.len() > command.max_payload_size() as usize {
            return None;
        }
        let id = RequestId::new(&mut self.ids);
        let packet = match Packet::with_payload(command, id, payload) {
            Some(p) => p,
            None => return None,
        };
        match self.pending.register(id, dest) {
            Ok(()) => Some(packet),
            Err(_) => None,
        }
    }

    /// Builds and registers a request for the sensor readings.
    pub fn begin_get_sensors(&mut self, dest: T) -> (r: Option<Packet>)
        requires
            old(self).wf(),
        ensures
            final(self).wf(),
            final(self).capacity() == old(self).capacity(),
            ({
                let id = old(self).upcoming_id();
                &&& final(self).upcoming_id() == (id + 1) % 0x10000
                &&& r is Some <==> can_register(old(self).entries(), old(self).capacity(), id)
                &&& r matches Some(p) ==> p@ == assemble(CommandType::GetSensors, id, seq![0xFFu8])
                    && p@.wf()
                &&& r is Some ==> final(self).entries() == old(self).entries().insert(id, dest)
                &&& r is None ==> final(self).entries() == old(self).entries()
            }),
    {
        let request = [0xFFu8];
        proof {
            assert(request@ =~= seq![0xFFu8]);
        }
        self.begin_request(CommandType::GetSensors, request.as_slice(), dest)
    }

    /// Hands an inbound packet to the waiter registered under its request
    /// id, removing the entry; an unsolicited, duplicate or late response
    /// finds no entry and is dropped.
    pub fn complete(&mut self, response: Packet) -> (r: Option<(T, Packet)>)
        requires
            old(self).wf(),
        ensures
            final(self).wf(),
            final(self).capacity() == old(self).capacity(),
            final(self).upcoming_id() == old(self).upcoming_id(),
            final(self).entries() == old(self).entries().remove(response@.request_id),
            r is Some <==> old(self).entries().contains_key(response@.request_id),
            r matches Some((d, p)) ==> d == old(self).entries()[response@.request_id] && p@
                == response@,
    {
        let id = response.request_id();
        match self.pending.take(id) {
            Some(dest) => Some((dest, response)),
            None => None,
        }
    }

    /// Gives up on the request `id` once its wait has timed out, freeing its
    /// slot; true where it was still in flight.
    pub fn expire(&mut self, id: RequestId) -> (r: bool)
        requires
            old(self).wf(),
        ensures
            final(self).wf(),
            final(self).capacity() == old(self).capacity(),
            final(self).upcoming_id() == old(self).upcoming_id(),
            final(self).entries() == old(self).entries().remove(id.0),
            r == old(self).entries().contains_key(id.0),
    {
        self.pending.take(id).is_some()
    }
}

/// The sensor values a response to a sensor read carries: nine signed
/// 16-bit values, little-endian, one after the other. Nothing where the
/// payload is too short to hold them.
pub fn parse_sensors(response: &Packet) -> (r: Option<[i16; 9]>)
    requires
        response@.wf(),
    ensures
        r is Some <==> response@.length >= 2 * SENSOR_COUNT,
        r matches Some(values) ==> forall|i: int|
            0 <= i < SENSOR_COUNT ==> values[i] == le_i16(
                #[trigger] response@.body()[2 * i],
                response@.body()[2 * i + 1],
            ),
{
    let payload = response.body();
    if payload.len() < 2 * SENSOR_COUNT {
        return None;
    }
    let mut sensors = [0i16; 9];
    let mut i: usize = 0;
    while i < SENSOR_COUNT
        invariant
            payload@ == response@.body(),
            payload@.len() >= 2 * SENSOR_COUNT,
            i <= SENSOR_COUNT,
            forall|k: int|
                0 <= k < i ==> sensors[k] == le_i16(
                    #[trigger] payload@[2 * k],
                    payload@[2 * k + 1],
                ),
        decreases SENSOR_COUNT - i,
    {
        let lo = payload[2 * i];
        let hi = payload[2 * i + 1];
        let v: i32 = lo as i32 + 256 * hi as i32;
        sensors[i] = if hi < 128 {
            v as i16
        } else {
            (v - 0x10000) as i16
        };
        i = i + 1;
    }
    Some(sensors)
}

} // verus!
