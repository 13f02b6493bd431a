//! What the two ports share: request statuses, the port operation payload,
//! and the registry of outstanding transfer requests.
use vstd::prelude::*;
use crate::codec::{bytes_eq, clone_bytes, copy_range};
use crate::error::PortError;
use crate::records::{
    has_key, index_of, lemma_index_of, lemma_insert_lookup, lemma_remove_keeps_others,
    lemma_remove_lookup, lookup, RecordHandler,
};

verus! {

/// Where a swap stands.
#[derive(Debug, Clone, Copy, PartialEq, Eq, Structural)]
pub enum RequestStatus {
    Unset,
    New,
    Rejected,
    Success,
}

impl RequestStatus {
    /// The status with wire code `input`, if it names one.
    pub fn from_u8(input: u8) -> (r: Option<RequestStatus>)
        ensures
            input == 0 ==> r == Some(RequestStatus::Unset),
            input == 1 ==> r == Some(RequestStatus::New),
            input == 2 ==> r == Some(RequestStatus::Rejected),
            input == 3 ==> r == Some(RequestStatus::Success),
            input > 3 ==> r is None,
    {
        match input {
            0 => Some(RequestStatus::Unset),
            1 => Some(RequestStatus::New),
            2 => Some(RequestStatus::Rejected),
            3 => Some(RequestStatus::Success),
            _ => None,
        }
    }
}

/// A transfer from this chain to a foreign address, waiting for confirmation.
pub struct GenericRequest {
    pub destination_address: Vec<u8>,
    pub origin_address: Vec<u8>,
    pub amount: u64,
}

/// Shortest port operation payload: action, swap id, amount, receiver.
pub const PORT_OPERATION_LEN: usize = 57;

/// Action byte of an inbound mint: 'm'.
pub const MINT_ACTION: u8 = 109;

/// Action byte of an inbound unlock: 'u'.
pub const UNLOCK_ACTION: u8 = 117;

/// Action byte of a confirmation: 'c'.
pub const CONFIRM_ACTION: u8 = 99;

/// The action bytes of port operations, by name.
pub struct PortOperationIdentifier;

impl PortOperationIdentifier {
    pub const MINT: u8 = MINT_ACTION;

    pub const UNLOCK: u8 = UNLOCK_ACTION;

    pub const CONFIRM: u8 = CONFIRM_ACTION;
}

/// A decoded port operation payload. `amount` holds the eight amount bytes
/// as they came.
pub struct PortOperation {
    pub action: u8,
    pub swap_id: Vec<u8>,
    pub amount: Vec<u8>,
    pub receiver: Vec<u8>,
}

/// The operation that payload `b` encodes, read from its first 57 bytes.
pub open spec fn port_operation_of(b: Seq<u8>) -> (u8, Seq<u8>, Seq<u8>, Seq<u8>) {
    (b[0], b.subrange(1, 17), b.subrange(17, 25), b.subrange(25, 57))
}

pub open spec fn operation_matches(op: PortOperation, b: Seq<u8>) -> bool {
    port_operation_of(b) == (op.action, op.swap_id@, op.amount@, op.receiver@)
}

/// Decodes `action:1 | swap_id:16 | amount:8 | receiver:32`; bytes past the
/// 57th are ignored.
pub fn unpack_port_operation(byte_data: &[u8]) -> (r: Result<PortOperation, PortError>)
    ensures
        byte_data@.len() < PORT_OPERATION_LEN ==> r == Err::<PortOperation, PortError>(
            PortError::ByteArrayUnpackFailed,
        ),
        byte_data@.len() >= PORT_OPERATION_LEN ==> (r matches Ok(op) && operation_matches(
            op,
            byte_data@,
        )),
{
    if byte_data.len() < PORT_OPERATION_LEN {
        return Err(PortError::ByteArrayUnpackFailed);
    }
    Ok(
        PortOperation {
            action: byte_data[0],
            swap_id: copy_range(byte_data, 1, 17),
            amount: copy_range(byte_data, 17, 25),
            receiver: copy_range(byte_data, 25, 57),
        },
    )
}

/// The encoding of a port operation.
pub open spec fn port_operation_bytes(action: u8, swap_id: Seq<u8>, amount: Seq<u8>, receiver: Seq<u8>) -> Seq<u8> {
    seq![action] + swap_id + amount + receiver
}

/// Encodes a port operation; the inverse of `unpack_port_operation`.
pub fn pack_port_operation(op: &PortOperation) -> (r: Vec<u8>)
    ensures
        r@ == port_operation_bytes(op.action, op.swap_id@, op.amount@, op.receiver@),
{
    let mut r: Vec<u8> = Vec::new();
    r.push(op.action);
    crate::codec::append_bytes(&mut r, op.swap_id.as_slice());
    crate::codec::append_bytes(&mut r, op.amount.as_slice());
    crate::codec::append_bytes(&mut r, op.receiver.as_slice());
    assert(r@ =~= port_operation_bytes(op.action, op.swap_id@, op.amount@, op.receiver@));
    r
}

/// Decoding an encoded operation gives it back.
pub proof fn lemma_port_operation_round_trip(action: u8, swap_id: Seq<u8>, amount: Seq<u8>, receiver: Seq<u8>)
    requires
        swap_id.len() == 16,
        amount.len() == 8,
        receiver.len() == 32,
    ensures
        port_operation_bytes(action, swap_id, amount, receiver).len() == PORT_OPERATION_LEN,
        port_operation_of(port_operation_bytes(action, swap_id, amount, receiver)) == (
            action,
            swap_id,
            amount,
            receiver,
        ),
{
    let b = port_operation_bytes(action, swap_id, amount, receiver);
    assert(b.subrange(1, 17) =~= swap_id);
    assert(b.subrange(17, 25) =~= amount);
    assert(b.subrange(25, 57) =~= receiver);
}

/// Encoding a decoded payload of exactly 57 bytes gives the payload back.
pub proof fn lemma_port_bytes_round_trip(b: Seq<u8>)
    requires
        b.len() == PORT_OPERATION_LEN,
    ensures
        port_operation_bytes(
            port_operation_of(b).0,
            port_operation_of(b).1,
            port_operation_of(b).2,
            port_operation_of(b).3,
        ) == b,
{
    let (a, s, m, r) = port_operation_of(b);
    assert(port_operation_bytes(a, s, m, r) =~= b);
}

/// Ok iff `data_provider` is one of the keys. An empty list admits nobody.
pub fn validate_data_provider(multisig_owner_keys: &Vec<Vec<u8>>, data_provider: &[u8]) -> (r: Result<(), PortError>)
    ensures
        r is Ok <==> is_member(multisig_owner_keys@, data_provider@),
        r is Err ==> r == Err::<(), PortError>(PortError::AccessDenied),
{
    let mut i: usize = 0;
    while i < multisig_owner_keys.len()
        invariant
            0 <= i <= multisig_owner_keys@.len(),
            forall|j: int| 0 <= j < i ==> multisig_owner_keys@[j]@ != data_provider@,
        decreases multisig_owner_keys.len() - i,
    {
        if bytes_eq(multisig_owner_keys[i].as_slice(), data_provider) {
            return Ok(());
        }
        i = i + 1;
    }
    Err(PortError::AccessDenied)
}

/// `key` is one of `keys`.
pub open spec fn is_member(keys: Seq<Vec<u8>>, key: Seq<u8>) -> bool {
    exists|i: int| 0 <= i < keys.len() && keys[i]@ == key
}

/// The swap ids of a queue.
pub open spec fn queue_view(q: Seq<Vec<u8>>) -> Seq<Seq<u8>> {
    Seq::new(q.len(), |i: int| q[i]@)
}

/// Removes the first occurrence of `input` from the queue and hands it back.
pub fn drop_selected(queue: &mut Vec<Vec<u8>>, input: &[u8]) -> (r: Option<Vec<u8>>)
    ensures
        r is Some <==> queue_view(old(queue)@).contains(input@),
        r is Some ==> r->Some_0@ == input@ && exists|i: int|
            0 <= i < old(queue)@.len() && old(queue)@[i]@ == input@ && final(queue)@
                == old(queue)@.remove(i) && forall|j: int|
                0 <= j < i ==> old(queue)@[j]@ != input@,
        r is None ==> *final(queue) == *old(queue),
{
    let mut i: usize = 0;
    while i < queue.len()
        invariant
            0 <= i <= queue@.len(),
            *queue == *old(queue),
            forall|j: int| 0 <= j < i ==> queue@[j]@ != input@,
        decreases queue.len() - i,
    {
        if bytes_eq(queue[i].as_slice(), input) {
            assert(queue_view(queue@)[i as int] == input@);
            let x = queue.remove(i);
            return Some(x);
        }
        i = i + 1;
    }
    proof {
        if queue_view(queue@).contains(input@) {
            let k = choose|k: int| 0 <= k < queue_view(queue@).len() && queue_view(queue@)[k] == input@;
            assert(queue@[k]@ == input@);
        }
    }
    None
}

/// The requests of a port, their statuses, and the order they came in.
pub struct RequestRegistry {
    pub swap_status: RecordHandler<RequestStatus>,
    pub requests: RecordHandler<GenericRequest>,
    pub requests_queue: Vec<Vec<u8>>,
}

/// Every request has a status, and every `New` status has a request; the
/// queue holds exactly the requested ids, each once; and there are at most
/// `cap` of them.
pub open spec fn registry_inv(
    swap_status: Seq<(Seq<u8>, RequestStatus)>,
    requests: Seq<(Seq<u8>, GenericRequest)>,
    queue: Seq<Seq<u8>>,
    cap: nat,
) -> bool {
    &&& forall|s: Seq<u8>| has_key(requests, s) ==> has_key(swap_status, s)
    &&& forall|s: Seq<u8>|
        lookup(swap_status, s) == Some(RequestStatus::New) ==> has_key(requests, s)
    &&& forall|s: Seq<u8>| has_key(requests, s) <==> queue.contains(s)
    &&& queue.no_duplicates()
    &&& queue.len() == requests.len()
    &&& requests.len() <= cap
}

/// Some stored request carries id `s`.
pub open spec fn stored_id(requests: Seq<(Vec<u8>, GenericRequest)>, s: Seq<u8>) -> bool {
    exists|k: int| 0 <= k < requests.len() && requests[k].0@ == s
}

/// A `New` status names a stored request.
pub open spec fn new_status_requested(
    requests: Seq<(Vec<u8>, GenericRequest)>,
    status: (Vec<u8>, RequestStatus),
) -> bool {
    status.1 == RequestStatus::New ==> stored_id(requests, status.0@)
}

/// Stored requests and statuses that make a registry: at most `cap`
/// requests with pairwise distinct ids, and every `New` status naming one.
pub open spec fn restorable(
    cap: nat,
    requests: Seq<(Vec<u8>, GenericRequest)>,
    statuses: Seq<(Vec<u8>, RequestStatus)>,
) -> bool {
    &&& requests.len() <= cap
    &&& forall|a: int, b: int|
        0 <= a < requests.len() && 0 <= b < requests.len() && a != b ==> requests[a].0@
            != requests[b].0@
    &&& forall|k: int| 0 <= k < statuses.len() ==> new_status_requested(requests, #[trigger] statuses[k])
}

/// The last status stored for `s`, if any.
pub open spec fn last_status(statuses: Seq<(Vec<u8>, RequestStatus)>, s: Seq<u8>) -> Option<RequestStatus>
    decreases statuses.len(),
{
    if statuses.len() == 0 {
        None
    } else if statuses.last().0@ == s {
        Some(statuses.last().1)
    } else {
        last_status(statuses.drop_last(), s)
    }
}

/// The status that a restored registry gives `s`: the last one stored for
/// it, else `New` for a stored request, else none.
pub open spec fn restored_status(
    requests: Seq<(Vec<u8>, GenericRequest)>,
    statuses: Seq<(Vec<u8>, RequestStatus)>,
    s: Seq<u8>,
) -> Option<RequestStatus> {
    match last_status(statuses, s) {
        Some(x) => Some(x),
        None => if stored_id(requests, s) {
            Some(RequestStatus::New)
        } else {
            None
        },
    }
}

/// A registry entry holds what a stored request holds.
pub open spec fn restored_entry(e: (Seq<u8>, GenericRequest), stored: (Vec<u8>, GenericRequest)) -> bool {
    &&& e.0 == stored.0@
    &&& e.1.destination_address@ == stored.1.destination_address@
    &&& e.1.origin_address@ == stored.1.origin_address@
    &&& e.1.amount == stored.1.amount
}

/// The registry's requests are the stored ones, in order.
pub open spec fn restored_requests(
    entries: Seq<(Seq<u8>, GenericRequest)>,
    requests: Seq<(Vec<u8>, GenericRequest)>,
) -> bool {
    &&& entries.len() == requests.len()
    &&& forall|k: int| 0 <= k < requests.len() ==> restored_entry(#[trigger] entries[k], requests[k])
}

pub proof fn lemma_restored_keys(entries: Seq<(Seq<u8>, GenericRequest)>, requests: Seq<(Vec<u8>, GenericRequest)>)
    requires
        restored_requests(entries, requests),
    ensures
        forall|s: Seq<u8>| has_key(entries, s) <==> stored_id(requests, s),
{
    assert forall|s: Seq<u8>| has_key(entries, s) <==> stored_id(requests, s) by {
        if has_key(entries, s) {
            let k = choose|k: int| 0 <= k < entries.len() && entries[k].0 == s;
            assert(restored_entry(entries[k], requests[k]));
        }
        if stored_id(requests, s) {
            let k = choose|k: int| 0 <= k < requests.len() && requests[k].0@ == s;
            assert(restored_entry(entries[k], requests[k]));
        }
    }
}

/// Outcome of a confirmation of `op` whose amount reads as `port_amount`.
pub open spec fn confirm_outcome(
    swap_status: Seq<(Seq<u8>, RequestStatus)>,
    requests: Seq<(Seq<u8>, GenericRequest)>,
    swap_id: Seq<u8>,
    receiver: Seq<u8>,
    port_amount: u64,
) -> Result<(), PortError> {
    match lookup(requests, swap_id) {
        None => Err(PortError::RequestIDForConfirmationIsInvalid),
        Some(req) => if req.destination_address@ != receiver {
            Err(PortError::RequestReceiverMismatch)
        } else if lookup(swap_status, swap_id) == Some(RequestStatus::New) {
            Err(PortError::RequestStatusMismatch)
        } else if req.amount != port_amount {
            Err(PortError::RequestAmountMismatch)
        } else {
            Ok(())
        },
    }
}

impl RequestRegistry {
    pub open spec fn wf(&self, cap: nat) -> bool {
        &&& self.swap_status.wf()
        &&& self.requests.wf()
        &&& registry_inv(self.swap_status@, self.requests@, queue_view(self.requests_queue@), cap)
    }

    pub fn new() -> (r: RequestRegistry)
        ensures
            forall|cap: nat| r.wf(cap),
            r.swap_status@.len() == 0,
            r.requests@.len() == 0,
            r.requests_queue@.len() == 0,
    {
        let r = RequestRegistry {
            swap_status: RecordHandler::new(),
            requests: RecordHandler::new(),
            requests_queue: Vec::new(),
        };
        assert(queue_view(r.requests_queue@) =~= Seq::<Seq<u8>>::empty());
        r
    }

    /// Records a new outgoing request under `record_id` with status `New`,
    /// at the end of the queue.
    pub fn create_request(
        &mut self,
        cap: usize,
        record_id: &[u8],
        amount: u64,
        origin: &[u8],
        receiver: &[u8],
    ) -> (r: Result<(), PortError>)
        requires
            old(self).wf(cap as nat),
        ensures
            final(self).wf(cap as nat),
            old(self).requests@.len() >= cap ==> r == Err::<(), PortError>(
                PortError::TransferRequestsCountLimit,
            ),
            old(self).requests@.len() < cap && has_key(old(self).requests@, record_id@) ==> r
                == Err::<(), PortError>(PortError::RequestIDIsAlreadyBeingProcessed),
            r is Ok <==> (old(self).requests@.len() < cap && !has_key(
                old(self).requests@,
                record_id@,
            )),
            r is Err ==> *final(self) == *old(self),
            r is Ok ==> {
                &&& lookup(final(self).requests@, record_id@) matches Some(q) && q.amount == amount
                    && q.origin_address@ == origin@ && q.destination_address@ == receiver@
                &&& lookup(final(self).swap_status@, record_id@) == Some(RequestStatus::New)
                &&& queue_view(final(self).requests_queue@) == queue_view(
                    old(self).requests_queue@,
                ).push(record_id@)
                &&& final(self).requests@ == old(self).requests@.push(
                    (record_id@, lookup(final(self).requests@, record_id@)->Some_0),
                )
                &&& forall|k: Seq<u8>|
                    k != record_id@ ==> #[trigger] lookup(final(self).swap_status@, k) == lookup(
                        old(self).swap_status@,
                        k,
                    )
            },
    {
        if self.requests.len() >= cap {
            return Err(PortError::TransferRequestsCountLimit);
        }
        if self.requests.contains_key(record_id) {
            return Err(PortError::RequestIDIsAlreadyBeingProcessed);
        }
        let ghost q0 = queue_view(self.requests_queue@);
        let ghost st0 = self.swap_status@;
        let ghost rq0 = self.requests@;
        let req = GenericRequest {
            destination_address: clone_bytes(receiver),
            origin_address: clone_bytes(origin),
            amount,
        };
        let ghost rv = req;
        self.requests.insert(clone_bytes(record_id), req);
        self.swap_status.insert(clone_bytes(record_id), RequestStatus::New);
        self.requests_queue.push(clone_bytes(record_id));
        proof {
            let id = record_id@;
            lemma_insert_lookup(rq0, id, rv, self.requests@);
            lemma_insert_lookup(st0, id, RequestStatus::New, self.swap_status@);
            assert forall|s: Seq<u8>|
                lookup(self.swap_status@, s) == Some(RequestStatus::New) implies has_key(
                self.requests@,
                s,
            ) by {
                if s != id {
                    assert(lookup(st0, s) == Some(RequestStatus::New));
                    assert(has_key(rq0, s));
                    assert(lookup(self.requests@, s) is Some);
                }
            }
            assert(queue_view(self.requests_queue@) =~= q0.push(id));
            let rq = self.requests@;
            let st = self.swap_status@;
            assert(rq[rq.len() - 1].0 == id);
            lemma_index_of(rq, id);
            lemma_index_of(st, id);
            assert(has_key(rq, id));
            assert forall|s: Seq<u8>| has_key(rq, s) implies has_key(st, s) by {
                if s != id {
                    let i = choose|i: int| 0 <= i < rq.len() && rq[i].0 == s;
                    assert(rq0[i].0 == s);
                    assert(has_key(st0, s));
                    let j = choose|j: int| 0 <= j < st0.len() && st0[j].0 == s;
                    if has_key(st0, id) {
                        lemma_index_of(st0, id);
                        assert(st[j].0 == s);
                    } else {
                        assert(st[j].0 == s);
                    }
                } else {
                    assert(has_key(st, id)) by {
                        if has_key(st0, id) {
                            lemma_index_of(st0, id);
                            assert(st[index_of(st0, id)].0 == id);
                        } else {
                            assert(st[st.len() - 1].0 == id);
                        }
                    }
                }
            }
            assert forall|s: Seq<u8>| has_key(rq, s) <==> queue_view(self.requests_queue@).contains(s) by {
                if has_key(rq, s) && s != id {
                    let i = choose|i: int| 0 <= i < rq.len() && rq[i].0 == s;
                    assert(rq0[i].0 == s);
                    assert(q0.contains(s));
                    let k = choose|k: int| 0 <= k < q0.len() && q0[k] == s;
                    assert(queue_view(self.requests_queue@)[k] == s);
                }
                if has_key(rq, s) && s == id {
                    assert(queue_view(self.requests_queue@)[q0.len() as int] == s);
                }
                if queue_view(self.requests_queue@).contains(s) && s != id {
                    let k = choose|k: int| 0 <= k < q0.len() + 1 && queue_view(self.requests_queue@)[k] == s;
                    assert(q0[k] == s);
                    assert(has_key(rq0, s));
                    let i = choose|i: int| 0 <= i < rq0.len() && rq0[i].0 == s;
                    assert(rq[i].0 == s);
                }
            }
            assert(!q0.contains(id));
            assert(lookup(rq, id) == Some(rq[rq.len() - 1].1));
            if has_key(st0, id) {
                lemma_index_of(st0, id);
                assert(st[index_of(st0, id)].0 == id);
                assert(index_of(st, id) == index_of(st0, id));
            } else {
                assert(st[st.len() - 1].0 == id);
            }
            assert(lookup(st, id) == Some(RequestStatus::New));
        }
        Ok(())
    }

    /// Sets the status of `id`, leaving every other status, the requests and
    /// the queue as they were.
    pub fn set_status(&mut self, cap: usize, id: &[u8], status: RequestStatus)
        requires
            old(self).wf(cap as nat),
            status == RequestStatus::New ==> has_key(old(self).requests@, id@),
        ensures
            final(self).wf(cap as nat),
            lookup(final(self).swap_status@, id@) == Some(status),
            forall|s: Seq<u8>|
                s != id@ ==> lookup(final(self).swap_status@, s) == lookup(
                    old(self).swap_status@,
                    s,
                ),
            final(self).requests == old(self).requests,
            final(self).requests_queue == old(self).requests_queue,
    {
        let ghost st0 = self.swap_status@;
        self.swap_status.insert(clone_bytes(id), status);
        proof {
            let st = self.swap_status@;
            let key = id@;
            lemma_index_of(st0, key);
            lemma_index_of(st, key);
            if has_key(st0, key) {
                assert(st[index_of(st0, key)].0 == key);
            } else {
                assert(st[st.len() - 1].0 == key);
            }
            assert forall|h: Seq<u8>| h != key implies lookup(st, h) == lookup(st0, h) && (has_key(
                st0,
                h,
            ) ==> has_key(st, h)) by {
                lemma_index_of(st0, h);
                lemma_index_of(st, h);
                if has_key(st0, h) {
                    assert(st[index_of(st0, h)].0 == h);
                }
                if has_key(st, h) {
                    assert(st0[index_of(st, h)].0 == h);
                }
            }
        }
    }

    /// Rebuilds a registry from stored requests, in queue order, and stored
    /// statuses, later statuses of an id overriding earlier ones; `None`
    /// exactly where they could not make a registry (see `restorable`).
    pub fn restore(
        cap: usize,
        requests: &Vec<(Vec<u8>, GenericRequest)>,
        statuses: &Vec<(Vec<u8>, RequestStatus)>,
    ) -> (r: Option<RequestRegistry>)
        ensures
            r is Some <==> restorable(cap as nat, requests@, statuses@),
            r matches Some(g) ==> {
                &&& g.wf(cap as nat)
                &&& restored_requests(g.requests@, requests@)
                &&& queue_view(g.requests_queue@) == Seq::new(
                    requests@.len(),
                    |k: int| requests@[k].0@,
                )
                &&& forall|s: Seq<u8>|
                    #[trigger] lookup(g.swap_status@, s) == restored_status(requests@, statuses@, s)
            },
    {
        let mut g = RequestRegistry::new();
        let mut i: usize = 0;
        proof {
            assert(queue_view(g.requests_queue@) =~= Seq::new(0, |k: int| requests@[k].0@));
            assert forall|s: Seq<u8>| #[trigger] lookup(g.swap_status@, s) == (if stored_id(
                requests@.subrange(0, 0),
                s,
            ) {
                Some(RequestStatus::New)
            } else {
                None::<RequestStatus>
            }) by {}
        }
        while i < requests.len()
            invariant
                0 <= i <= requests@.len(),
                g.wf(cap as nat),
                queue_view(g.requests_queue@) == Seq::new(i as nat, |k: int| requests@[k].0@),
                restored_requests(g.requests@, requests@.subrange(0, i as int)),
                forall|s: Seq<u8>|
                    #[trigger] lookup(g.swap_status@, s) == (if stored_id(
                        requests@.subrange(0, i as int),
                        s,
                    ) {
                        Some(RequestStatus::New)
                    } else {
                        None::<RequestStatus>
                    }),
            decreases requests.len() - i,
        {
            let (id, q) = &requests[i];
            let ghost pre = requests@.subrange(0, i as int);
            let ghost next = requests@.subrange(0, i + 1);
            proof {
                lemma_restored_keys(g.requests@, pre);
                assert forall|s: Seq<u8>| stored_id(next, s) <==> (stored_id(pre, s) || s == id@) by {
                    if stored_id(next, s) {
                        let k = choose|k: int| 0 <= k < next.len() && next[k].0@ == s;
                        if k < i {
                            assert(pre[k].0@ == s);
                        }
                    }
                    if stored_id(pre, s) {
                        let k = choose|k: int| 0 <= k < pre.len() && pre[k].0@ == s;
                        assert(next[k].0@ == s);
                    }
                    if s == id@ {
                        assert(next[i as int].0@ == s);
                    }
                }
            }
            let ghost old_g = g;
            match g.create_request(
                cap,
                id.as_slice(),
                q.amount,
                q.origin_address.as_slice(),
                q.destination_address.as_slice(),
            ) {
                Ok(()) => {},
                Err(_) => {
                    proof {
                        if i >= cap {
                            assert(requests@.len() > cap);
                        } else {
                            let k = choose|k: int| 0 <= k < pre.len() && pre[k].0@ == id@;
                            assert(requests@[k].0@ == requests@[i as int].0@);
                        }
                    }
                    return None;
                },
            }
            proof {
                assert(queue_view(g.requests_queue@) =~= Seq::new(
                    (i + 1) as nat,
                    |k: int| requests@[k].0@,
                ));
                assert forall|s: Seq<u8>| #[trigger] lookup(g.swap_status@, s) == (if stored_id(
                    next,
                    s,
                ) {
                    Some(RequestStatus::New)
                } else {
                    None::<RequestStatus>
                }) by {
                    if s != id@ {
                        assert(lookup(g.swap_status@, s) == lookup(old_g.swap_status@, s));
                    }
                }
                assert forall|k: int| 0 <= k < next.len() implies restored_entry(
                    #[trigger] g.requests@[k],
                    next[k],
                ) by {
                    if k < i {
                        assert(g.requests@[k] == old_g.requests@[k]);
                        assert(pre[k] == next[k]);
                    }
                }
            }
            i = i + 1;
        }
        proof {
            assert(requests@.subrange(0, requests@.len() as int) =~= requests@);
            assert forall|s: Seq<u8>| #[trigger] lookup(g.swap_status@, s) == restored_status(
                requests@,
                statuses@.subrange(0, 0),
                s,
            ) by {
                assert(last_status(statuses@.subrange(0, 0), s) is None);
            }
        }
        let ghost q = queue_view(g.requests_queue@);
        let ghost rq = g.requests@;
        let mut j: usize = 0;
        while j < statuses.len()
            invariant
                0 <= j <= statuses@.len(),
                g.wf(cap as nat),
                queue_view(g.requests_queue@) == q,
                g.requests@ == rq,
                restored_requests(rq, requests@),
                forall|k: int| 0 <= k < j ==> new_status_requested(requests@, #[trigger] statuses@[k]),
                forall|s: Seq<u8>|
                    #[trigger] lookup(g.swap_status@, s) == restored_status(
                        requests@,
                        statuses@.subrange(0, j as int),
                        s,
                    ),
            decreases statuses.len() - j,
        {
            let (id, st) = &statuses[j];
            proof {
                lemma_restored_keys(rq, requests@);
            }
            if *st == RequestStatus::New && !g.requests.contains_key(id.as_slice()) {
                return None;
            }
            let ghost old_g = g;
            g.set_status(cap, id.as_slice(), *st);
            proof {
                let sub = statuses@.subrange(0, j + 1);
                assert(sub.drop_last() =~= statuses@.subrange(0, j as int));
                assert forall|s: Seq<u8>| #[trigger] lookup(g.swap_status@, s) == restored_status(
                    requests@,
                    sub,
                    s,
                ) by {
                    if s != id@ {
                        assert(lookup(g.swap_status@, s) == lookup(old_g.swap_status@, s));
                    }
                }
            }
            j = j + 1;
        }
        proof {
            assert(statuses@.subrange(0, statuses@.len() as int) =~= statuses@);
            assert forall|a: int, b: int|
                0 <= a < requests@.len() && 0 <= b < requests@.len() && a != b implies requests@[a].0@
                    != requests@[b].0@ by {
                assert(restored_entry(rq[a], requests@[a]));
                assert(restored_entry(rq[b], requests@[b]));
            }
        }
        Some(g)
    }

    /// Records an inbound swap as done. The action must be `expected_action`,
    /// the swap id must have no status yet, and the payload's receiver must
    /// be `input_pubkey`.
    pub fn attach(&mut self, cap: usize, op: &PortOperation, expected_action: u8, input_pubkey: &[u8]) -> (r: Result<(), PortError>)
        requires
            old(self).wf(cap as nat),
        ensures
            final(self).wf(cap as nat),
            r == attach_outcome(
                old(self).swap_status@,
                op.action,
                op.swap_id@,
                op.receiver@,
                expected_action,
                input_pubkey@,
            ),
            r is Err ==> *final(self) == *old(self),
            r is Ok ==> {
                &&& final(self).swap_status@ == old(self).swap_status@.push(
                    (op.swap_id@, RequestStatus::Success),
                )
                &&& final(self).requests == old(self).requests
                &&& final(self).requests_queue == old(self).requests_queue
            },
    {
        if op.action != expected_action {
            return Err(PortError::InvalidDataOnAttach);
        }
        if self.swap_status.contains_key(op.swap_id.as_slice()) {
            return Err(PortError::InvalidRequestStatus);
        }
        if !bytes_eq(input_pubkey, op.receiver.as_slice()) {
            return Err(PortError::ErrorOnReceiverUnpack);
        }
        let ghost st0 = self.swap_status@;
        self.swap_status.insert(clone_bytes(op.swap_id.as_slice()), RequestStatus::Success);
        proof {
            let st = self.swap_status@;
            lemma_insert_lookup(st0, op.swap_id@, RequestStatus::Success, st);
            assert forall|s: Seq<u8>|
                lookup(st, s) == Some(RequestStatus::New) implies has_key(self.requests@, s) by {
                if s != op.swap_id@ {
                    assert(lookup(st0, s) == Some(RequestStatus::New));
                }
            }
            assert forall|s: Seq<u8>| has_key(self.requests@, s) implies has_key(st, s) by {
                let j = choose|j: int| 0 <= j < st0.len() && st0[j].0 == s;
                assert(st[j].0 == s);
            }
        }
        Ok(())
    }

    /// Drops a processed outgoing request: it must exist, go to the
    /// payload's receiver, no longer be `New`, and carry `port_amount`.
    /// On success the id leaves the requests, the statuses and the queue.
    pub fn drop_processed(&mut self, cap: usize, op: &PortOperation, port_amount: u64) -> (r: Result<(), PortError>)
        requires
            old(self).wf(cap as nat),
        ensures
            final(self).wf(cap as nat),
            r == confirm_outcome(
                old(self).swap_status@,
                old(self).requests@,
                op.swap_id@,
                op.receiver@,
                port_amount,
            ),
            r is Err ==> *final(self) == *old(self),
            r is Ok ==> confirmed(*old(self), *final(self), op.swap_id@),
    {
        let ghost id = op.swap_id@;
        proof {
            lemma_index_of(self.requests@, id);
            lemma_index_of(self.swap_status@, id);
        }
        let req = match self.requests.get(op.swap_id.as_slice()) {
            Some(q) => q,
            None => {
                return Err(PortError::RequestIDForConfirmationIsInvalid);
            },
        };
        if !bytes_eq(req.destination_address.as_slice(), op.receiver.as_slice()) {
            return Err(PortError::RequestReceiverMismatch);
        }
        let status = self.swap_status.get(op.swap_id.as_slice());
        let is_new = match status {
            Some(s) => *s == RequestStatus::New,
            None => false,
        };
        if is_new {
            return Err(PortError::RequestStatusMismatch);
        }
        if req.amount != port_amount {
            return Err(PortError::RequestAmountMismatch);
        }
        let ghost old_self = *self;
        let ghost q0 = queue_view(self.requests_queue@);
        assert(q0.contains(id));
        self.requests.drop(op.swap_id.as_slice());
        self.swap_status.drop(op.swap_id.as_slice());
        let dropped = drop_selected(&mut self.requests_queue, op.swap_id.as_slice());
        proof {
            let rq0 = old_self.requests@;
            let st0 = old_self.swap_status@;
            let rq = self.requests@;
            let st = self.swap_status@;
            let q = queue_view(self.requests_queue@);
            let i = choose|i: int|
                0 <= i < old_self.requests_queue@.len() && old_self.requests_queue@[i]@ == id
                    && self.requests_queue@ == old_self.requests_queue@.remove(i) && forall|j: int|
                    0 <= j < i ==> old_self.requests_queue@[j]@ != id;
            assert(q =~= q0.remove(i));
            assert(q0[i] == id);
            let other = id.push(0u8);
            assert(other.len() != id.len());
            lemma_remove_keeps_others(rq0, id, other);
            lemma_remove_keeps_others(st0, id, other);
            assert forall|s: Seq<u8>| has_key(rq, s) implies has_key(st, s) by {
                if s != id {
                    lemma_remove_keeps_others(rq0, id, s);
                    lemma_remove_keeps_others(st0, id, s);
                }
            }
            assert forall|s: Seq<u8>| lookup(st, s) == Some(RequestStatus::New) implies has_key(
                rq,
                s,
            ) by {
                if s != id {
                    lemma_remove_lookup(st0, id, s);
                    lemma_remove_keeps_others(rq0, id, s);
                }
            }
            assert forall|s: Seq<u8>| has_key(rq, s) <==> q.contains(s) by {
                if s != id {
                    lemma_remove_keeps_others(rq0, id, s);
                    if q0.contains(s) {
                        let k = choose|k: int| 0 <= k < q0.len() && q0[k] == s;
                        if k < i {
                            assert(q[k] == s);
                        } else {
                            assert(k != i);
                            assert(q[k - 1] == s);
                        }
                    }
                    if q.contains(s) {
                        let k = choose|k: int| 0 <= k < q.len() && q[k] == s;
                        if k < i {
                            assert(q0[k] == s);
                        } else {
                            assert(q0[k + 1] == s);
                        }
                    }
                } else {
                    if q.contains(s) {
                        let k = choose|k: int| 0 <= k < q.len() && q[k] == s;
                        if k < i {
                            assert(q0[k] == s);
                        } else {
                            assert(q0[k + 1] == s);
                        }
                    }
                }
            }
        }
        Ok(())
    }
}

/// `after` is `before` with `id` gone from the requests, the statuses and
/// the queue, and nothing else changed.
pub open spec fn confirmed(before: RequestRegistry, after: RequestRegistry, id: Seq<u8>) -> bool {
    &&& after.requests@ == before.requests@.remove(index_of(before.requests@, id))
    &&& after.swap_status@ == before.swap_status@.remove(index_of(before.swap_status@, id))
    &&& exists|i: int|
        0 <= i < before.requests_queue@.len() && before.requests_queue@[i]@ == id
            && after.requests_queue@ == before.requests_queue@.remove(i)
}

/// Outcome of attaching `op` where the expected action is `expected_action`.
pub open spec fn attach_outcome(
    swap_status: Seq<(Seq<u8>, RequestStatus)>,
    action: u8,
    swap_id: Seq<u8>,
    receiver: Seq<u8>,
    expected_action: u8,
    input_pubkey: Seq<u8>,
) -> Result<(), PortError> {
    if action != expected_action {
        Err(PortError::InvalidDataOnAttach)
    } else if has_key(swap_status, swap_id) {
        Err(PortError::InvalidRequestStatus)
    } else if input_pubkey != receiver {
        Err(PortError::ErrorOnReceiverUnpack)
    } else {
        Ok(())
    }
}

/// A confirmation that was accepted cannot be accepted again: the same
/// payload is then refused as naming no request.
pub proof fn lemma_confirmation_idempotent(
    before: RequestRegistry,
    after: RequestRegistry,
    swap_id: Seq<u8>,
    receiver: Seq<u8>,
    port_amount: u64,
    cap: nat,
)
    requires
        before.wf(cap),
        confirm_outcome(before.swap_status@, before.requests@, swap_id, receiver, port_amount) is Ok,
        confirmed(before, after, swap_id),
    ensures
        confirm_outcome(after.swap_status@, after.requests@, swap_id, receiver, port_amount) == Err::<
            (),
            PortError,
        >(PortError::RequestIDForConfirmationIsInvalid),
{
    let id = swap_id;
    assert(has_key(before.requests@, id));
    let other = id.push(0u8);
    assert(other != id) by {
        assert(other.len() != id.len());
    }
    lemma_remove_keeps_others(before.requests@, id, other);
}

/// An inbound swap id is processed at most once: after an accepted attach,
/// the same operation is refused.
pub proof fn lemma_attach_once(
    before: RequestRegistry,
    after: RequestRegistry,
    action: u8,
    swap_id: Seq<u8>,
    receiver: Seq<u8>,
    expected_action: u8,
    input_pubkey: Seq<u8>,
)
    requires
        attach_outcome(before.swap_status@, action, swap_id, receiver, expected_action, input_pubkey) is Ok,
        after.swap_status@ == before.swap_status@.push((swap_id, RequestStatus::Success)),
    ensures
        attach_outcome(after.swap_status@, action, swap_id, receiver, expected_action, input_pubkey) == Err::<
            (),
            PortError,
        >(PortError::InvalidRequestStatus),
{
    let st = after.swap_status@;
    assert(st[st.len() - 1].0 == swap_id);
}

/// What every accepted operation keeps, since each one preserves `wf`:
/// every request has a status and every `New` status has a request, the
/// queue holds each requested id once and as many ids as there are
/// requests, and there are at most `cap` requests.
pub proof fn lemma_registry_invariant(reg: RequestRegistry, cap: nat)
    requires
        reg.wf(cap),
    ensures
        forall|s: Seq<u8>| has_key(reg.requests@, s) ==> has_key(reg.swap_status@, s),
        forall|s: Seq<u8>|
            lookup(reg.swap_status@, s) == Some(RequestStatus::New) ==> has_key(reg.requests@, s),
        forall|s: Seq<u8>| has_key(reg.requests@, s) <==> queue_view(reg.requests_queue@).contains(s),
        reg.requests_queue@.len() == reg.requests@.len(),
        reg.requests@.len() <= cap,
{
    assert(queue_view(reg.requests_queue@).len() == reg.requests_queue@.len());
}

} // verus!
