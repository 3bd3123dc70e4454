//! Services and clients of the middleware interface.

use crate::entity::{same_gid, GidArray};
use crate::pubsub::publisher::Attachment;
use crate::rmw::pubsub::{clock_told, unix_nanos, RmwQosProfile, Sample};
use vstd::prelude::*;

verus! {

/// Whom a request came from and which of their requests it is.
#[derive(Debug, Clone, Copy)]
pub struct RequestId {
    pub writer_guid: GidArray,
    pub sequence_number: i64,
    /// When it was sent. This does not tell requests apart.
    pub source_timestamp: i64,
}

/// What tells requests apart.
pub open spec fn request_key(id: RequestId) -> (Seq<u8>, i64) {
    (id.writer_guid@, id.sequence_number)
}

/// What the interface tells of a request or a response. Times are nanoseconds
/// since the Unix epoch.
#[derive(Debug, Clone, Copy)]
pub struct ServiceInfo {
    pub writer_guid: GidArray,
    pub sequence_number: i64,
    pub source_timestamp: i64,
    pub received_timestamp: i64,
}

/// A request that is not answered yet; `R` is the way back.
#[derive(Debug)]
pub struct PendingRequest<R> {
    pub id: RequestId,
    pub reply: R,
}

/// A service.
#[derive(Debug)]
pub struct ServiceImpl<R> {
    pub pending: Vec<PendingRequest<R>>,
    pub qos: RmwQosProfile,
}

/// Why a response was not sent.
#[derive(Debug, Clone, Copy, PartialEq, Eq, Structural)]
pub enum ResponseError {
    /// No request of this identity waits for an answer.
    NotPending,
}

impl ResponseError {
    /// What the error says to the user.
    pub fn message(&self) -> (r: String)
        ensures
            r@ == "Pending request not found"@,
    {
        "Pending request not found".to_owned()
    }
}

/// The index of the first request with a key, or the number of requests.
pub open spec fn pending_index<R>(pending: Seq<PendingRequest<R>>, key: (Seq<u8>, i64)) -> nat
    decreases pending.len(),
{
    if pending.len() == 0 || request_key(pending[0].id) == key {
        0
    } else {
        1 + pending_index(pending.skip(1), key)
    }
}

/// The ways back by request.
pub open spec fn replies<R>(pending: Seq<PendingRequest<R>>) -> Map<(Seq<u8>, i64), R> {
    Map::new(
        |key: (Seq<u8>, i64)| pending_index(pending, key) < pending.len(),
        |key: (Seq<u8>, i64)| pending[pending_index(pending, key) as int].reply,
    )
}

proof fn pending_index_finds<R>(pending: Seq<PendingRequest<R>>, key: (Seq<u8>, i64))
    ensures
        pending_index(pending, key) <= pending.len(),
        pending_index(pending, key) < pending.len() ==> request_key(
            pending[pending_index(pending, key) as int].id,
        ) == key,
        forall|i: int|
            0 <= i < pending_index(pending, key) ==> request_key((#[trigger] pending[i]).id) != key,
    decreases pending.len(),
{
    if pending.len() > 0 && request_key(pending[0].id) != key {
        let rest = pending.skip(1);
        pending_index_finds(rest, key);
        assert forall|i: int| 0 <= i < pending_index(pending, key) implies request_key(
            (#[trigger] pending[i]).id,
        ) != key by {
            if i > 0 {
                assert(rest[i - 1] == pending[i]);
            }
        }
    }
}

proof fn pending_index_is<R>(pending: Seq<PendingRequest<R>>, key: (Seq<u8>, i64), at: nat)
    requires
        at <= pending.len(),
        at < pending.len() ==> request_key(pending[at as int].id) == key,
        forall|i: int| 0 <= i < at ==> request_key((#[trigger] pending[i]).id) != key,
    ensures
        pending_index(pending, key) == at,
    decreases pending.len(),
{
    if at > 0 {
        let rest = pending.skip(1);
        assert(request_key(pending[0].id) != key);
        assert forall|i: int| 0 <= i < at - 1 implies request_key((#[trigger] rest[i]).id)
            != key by {
            assert(rest[i] == pending[i + 1]);
        }
        pending_index_is(rest, key, (at - 1) as nat);
    }
}

impl<R> ServiceImpl<R> {
    /// Whether no request is pending twice.
    pub open spec fn wf(&self) -> bool {
        forall|i: int, j: int|
            0 <= i < j < self.pending@.len() ==> request_key((#[trigger] self.pending@[i]).id)
                != request_key((#[trigger] self.pending@[j]).id)
    }

    /// The ways back by request.
    pub open spec fn view(&self) -> Map<(Seq<u8>, i64), R> {
        replies(self.pending@)
    }

    /// A service to which no request has come.
    pub fn new(qos: RmwQosProfile) -> (r: Self)
        ensures
            r.wf(),
            r@ == Map::<(Seq<u8>, i64), R>::empty(),
            r.qos == qos,
    {
        let r = ServiceImpl { pending: Vec::new(), qos };
        assert(r@ =~= Map::<(Seq<u8>, i64), R>::empty());
        r
    }

    fn find(&self, guid: &GidArray, sequence_number: i64) -> (r: usize)
        ensures
            r == pending_index(self.pending@, (guid@, sequence_number)),
            r <= self.pending@.len(),
    {
        let ghost key = (guid@, sequence_number);
        let mut i: usize = 0;
        while i < self.pending.len()
            invariant
                i <= self.pending@.len(),
                key == (guid@, sequence_number),
                forall|j: int| 0 <= j < i ==> request_key((#[trigger] self.pending@[j]).id) != key,
            decreases self.pending@.len() - i,
        {
            let p = &self.pending[i];
            if p.id.sequence_number == sequence_number && same_gid(&p.id.writer_guid, guid) {
                proof {
                    pending_index_is(self.pending@, key, i as nat);
                }
                return i;
            }
            i = i + 1;
        }
        proof {
            pending_index_is(self.pending@, key, i as nat);
        }
        i
    }

    /// Takes a request: its way back is kept until it is answered, and what the
    /// interface tells of it is returned. The time is `received`.
    pub fn take_request_at(&mut self, id: RequestId, reply: R, received: i64) -> (r: ServiceInfo)
        requires
            old(self).wf(),
        ensures
            final(self).wf(),
            final(self)@ == old(self)@.insert(request_key(id), reply),
            final(self).qos == old(self).qos,
            r == (ServiceInfo {
                writer_guid: id.writer_guid,
                sequence_number: id.sequence_number,
                source_timestamp: id.source_timestamp,
                received_timestamp: received,
            }),
    {
        let ghost before = self.pending@;
        let ghost key = request_key(id);
        let at: usize = self.find(&id.writer_guid, id.sequence_number);
        proof {
            pending_index_finds(before, key);
        }
        if at < self.pending.len() {
            self.pending.set(at, PendingRequest { id, reply });
        } else {
            self.pending.push(PendingRequest { id, reply });
        }
        proof {
            let after = self.pending@;
            assert forall|k: (Seq<u8>, i64)| pending_index(after, k) == (if k == key {
                at as nat
            } else if pending_index(before, k) < before.len() {
                pending_index(before, k)
            } else {
                after.len()
            }) by {
                pending_index_finds(before, k);
                if k == key {
                    pending_index_is(after, k, at as nat);
                } else if pending_index(before, k) < before.len() {
                    let i = pending_index(before, k);
                    assert(after[i as int] == before[i as int]);
                    pending_index_is(after, k, i);
                } else {
                    assert forall|i: int| 0 <= i < after.len() implies request_key(
                        (#[trigger] after[i]).id,
                    ) != k by {
                        if i != at {
                            assert(after[i] == before[i]);
                        }
                    }
                    pending_index_is(after, k, after.len());
                }
            }
            assert(replies(after) =~= replies(before).insert(key, reply)) by {
                assert forall|k: (Seq<u8>, i64)| k != key && #[trigger] replies(
                    before,
                ).dom().contains(k) implies replies(after)[k] == replies(before)[k] by {
                    pending_index_finds(before, k);
                    assert(pending_index(after, k) == pending_index(before, k));
                    assert(pending_index(before, k) != at);
                }
                assert(pending_index(after, key) == at);
                assert forall|k: (Seq<u8>, i64)| #[trigger]
                    replies(after).dom().contains(k) <==> replies(before).insert(
                        key,
                        reply,
                    ).dom().contains(k) by {
                    pending_index_finds(before, k);
                    assert(pending_index(after, k) <= after.len());
                }
            }
        }
        ServiceInfo {
            writer_guid: id.writer_guid,
            sequence_number: id.sequence_number,
            source_timestamp: id.source_timestamp,
            received_timestamp: received,
        }
    }

    /// Takes a request: its way back is kept until it is answered, and what the
    /// interface tells of it is returned.
    pub fn take_request(&mut self, id: RequestId, reply: R) -> (r: ServiceInfo)
        requires
            old(self).wf(),
        ensures
            final(self).wf(),
            final(self)@ == old(self)@.insert(request_key(id), reply),
            final(self).qos == old(self).qos,
            r == (ServiceInfo {
                writer_guid: id.writer_guid,
                sequence_number: id.sequence_number,
                source_timestamp: id.source_timestamp,
                received_timestamp: r.received_timestamp,
            }),
            clock_told(r.received_timestamp),
    {
        let received: i64 = unix_nanos();
        self.take_request_at(id, reply, received)
    }

    /// The way back of a request that is to be answered, which waits no longer.
    pub fn send_response(&mut self, writer_guid: GidArray, sequence_number: i64) -> (r: Result<
        R,
        ResponseError,
    >)
        requires
            old(self).wf(),
        ensures
            final(self).wf(),
            final(self).qos == old(self).qos,
            final(self)@ == old(self)@.remove((writer_guid@, sequence_number)),
            match r {
                Ok(reply) => {
                    &&& old(self)@.dom().contains((writer_guid@, sequence_number))
                    &&& reply == old(self)@[(writer_guid@, sequence_number)]
                },
                Err(_) => !old(self)@.dom().contains((writer_guid@, sequence_number)),
            },
    {
        let ghost before = self.pending@;
        let ghost key = (writer_guid@, sequence_number);
        let at: usize = self.find(&writer_guid, sequence_number);
        proof {
            pending_index_finds(before, key);
        }
        if at == self.pending.len() {
            assert(self@ =~= old(self)@.remove(key));
            return Err(ResponseError::NotPending);
        }
        let p = self.pending.remove(at);
        proof {
            let after = self.pending@;
            assert(after == before.remove(at as int));
            assert forall|i: int, j: int| 0 <= i < j < after.len() implies request_key(
                (#[trigger] after[i]).id,
            ) != request_key((#[trigger] after[j]).id) by {
                let bi = if i < at {
                    i
                } else {
                    i + 1
                };
                let bj = if j < at {
                    j
                } else {
                    j + 1
                };
                assert(after[i] == before[bi] && after[j] == before[bj]);
            }
            assert forall|k: (Seq<u8>, i64)| #[trigger] replies(after).dom().contains(k) == (k
                != key && replies(before).dom().contains(k)) && (replies(after).dom().contains(k)
                ==> replies(after)[k] == replies(before)[k]) by {
                pending_index_finds(before, k);
                let b = pending_index(before, k);
                if k == key || b == before.len() {
                    assert forall|i: int| 0 <= i < after.len() implies request_key(
                        (#[trigger] after[i]).id,
                    ) != k by {
                        let bi = if i < at {
                            i
                        } else {
                            i + 1
                        };
                        assert(after[i] == before[bi]);
                        assert(bi != at);
                        assert(request_key(before[at as int].id) == key);
                    }
                    pending_index_is(after, k, after.len());
                } else {
                    let a = if b < at {
                        b
                    } else {
                        (b - 1) as nat
                    };
                    assert(b != at);
                    assert(after[a as int] == before[b as int]);
                    assert forall|i: int| 0 <= i < a implies request_key((#[trigger] after[i]).id)
                        != k by {
                        let bi = if i < at {
                            i
                        } else {
                            i + 1
                        };
                        assert(after[i] == before[bi]);
                    }
                    pending_index_is(after, k, a);
                }
            }
            assert(replies(after) =~= replies(before).remove(key));
        }
        Ok(p.reply)
    }
}

/// Whether `info` tells of a response with this attachment, received at a time.
/// Without an attachment the source is all zeros.
pub open spec fn responds(
    info: ServiceInfo,
    attachment: Option<Attachment>,
    received: i64,
) -> bool {
    match attachment {
        Some(a) => info == ServiceInfo {
            writer_guid: a.source_gid,
            sequence_number: a.sequence_number,
            source_timestamp: a.source_timestamp.unix_nanos,
            received_timestamp: received,
        },
        None => {
            &&& info.writer_guid@ == Seq::new(16, |i: int| 0u8)
            &&& info.sequence_number == 0
            &&& info.source_timestamp == 0
            &&& info.received_timestamp == received
        },
    }
}

/// What the interface tells of a response.
pub fn response_info(attachment: &Option<Attachment>, received: i64) -> (r: ServiceInfo)
    ensures
        responds(r, *attachment, received),
{
    match attachment {
        Some(a) => ServiceInfo {
            writer_guid: a.source_gid,
            sequence_number: a.sequence_number,
            source_timestamp: a.source_timestamp.unix_nanos,
            received_timestamp: received,
        },
        None => {
            let gid: GidArray = [0u8; 16];
            assert(gid@ =~= Seq::new(16, |i: int| 0u8));
            ServiceInfo {
                writer_guid: gid,
                sequence_number: 0,
                source_timestamp: 0,
                received_timestamp: received,
            }
        },
    }
}

/// A client.
#[derive(Debug)]
pub struct ClientImpl {
    pub qos: RmwQosProfile,
}

/// A response that was taken, with what the interface tells of it where that was
/// asked for.
#[derive(Debug)]
pub struct TakenResponse {
    pub payload: Vec<u8>,
    pub info: Option<ServiceInfo>,
}

impl ClientImpl {
    /// Takes a response where one came, with what is told of it where that is asked
    /// for; the time is `received`.
    pub fn take_response_at(&self, sample: Option<Sample>, informed: bool, received: i64) -> (r:
        Option<TakenResponse>)
        ensures
            match sample {
                Some(s) => {
                    &&& r matches Some(t)
                    &&& t.payload == s.payload
                    &&& if informed {
                        t.info matches Some(info) && responds(info, s.attachment, received)
                    } else {
                        t.info is None
                    }
                },
                None => r is None,
            },
    {
        match sample {
            Some(s) => {
                let info: Option<ServiceInfo> = if informed {
                    Some(response_info(&s.attachment, received))
                } else {
                    None
                };
                Some(TakenResponse { payload: s.payload, info })
            },
            None => None,
        }
    }

    /// Takes a response where one came, with what is told of it where that is asked
    /// for.
    pub fn take_response(&self, sample: Option<Sample>, informed: bool) -> (r: Option<
        TakenResponse,
    >)
        ensures
            match sample {
                Some(s) => {
                    &&& r matches Some(t)
                    &&& t.payload == s.payload
                    &&& if informed {
                        t.info matches Some(info) && responds(
                            info,
                            s.attachment,
                            info.received_timestamp,
                        ) && clock_told(info.received_timestamp)
                    } else {
                        t.info is None
                    }
                },
                None => r is None,
            },
    {
        let received: i64 = unix_nanos();
        self.take_response_at(sample, informed, received)
    }

    /// The quality of service of the client's requests and responses.
    pub fn get_actual_qos(&self) -> (r: RmwQosProfile)
        ensures
            r == self.qos,
    {
        self.qos
    }
}

/// A request that was taken is answered once: its way back is there, and gone
/// after.
pub proof fn requests_are_answered_once<R>(
    pending: Map<(Seq<u8>, i64), R>,
    key: (Seq<u8>, i64),
    reply: R,
)
    ensures
        pending.insert(key, reply)[key] == reply,
        !pending.insert(key, reply).remove(key).dom().contains(key),
        pending.insert(key, reply).remove(key) == pending.remove(key),
{
    assert(pending.insert(key, reply).remove(key) =~= pending.remove(key));
}

/// Requests are told apart by who sent them and their number, not by their time.
pub proof fn requests_are_told_apart_by_sender_and_number(a: RequestId, b: RequestId)
    ensures
        request_key(a) == request_key(b) <==> a.writer_guid@ == b.writer_guid@
            && a.sequence_number == b.sequence_number,
{
}

/// A request that is taken has its way back entered, and the others keep theirs.
pub proof fn a_request_has_its_own_way_back<R>(
    pending: Seq<PendingRequest<R>>,
    p: PendingRequest<R>,
    i: int,
)
    requires
        forall|j: int| 0 <= j < pending.len() ==> request_key((#[trigger] pending[j]).id)
            != request_key(p.id),
    ensures
        replies(pending.push(p)) == replies(pending).insert(request_key(p.id), p.reply),
        replies(Seq::<PendingRequest<R>>::empty()) == Map::<(Seq<u8>, i64), R>::empty(),
        0 <= i < pending.len() && (forall|j: int|
            0 <= j < i ==> request_key((#[trigger] pending[j]).id) != request_key(pending[i].id))
            ==> replies(pending).contains_key(request_key(pending[i].id)) && replies(
            pending,
        )[request_key(pending[i].id)] == pending[i].reply,
{
    let after = pending.push(p);
    assert forall|key: (Seq<u8>, i64)|
        pending_index(after, key) == (if pending_index(pending, key) < pending.len() {
            pending_index(pending, key)
        } else if key == request_key(p.id) {
            pending.len()
        } else {
            after.len()
        }) by {
        let at = pending_index(pending, key);
        pending_index_finds(pending, key);
        if at < pending.len() {
            assert forall|j: int| 0 <= j < at implies request_key((#[trigger] after[j]).id)
                != key by {
                assert(after[j] == pending[j]);
            }
            pending_index_is(after, key, at);
        } else {
            assert forall|j: int| 0 <= j < pending.len() implies request_key(
                (#[trigger] after[j]).id,
            ) != key by {
                assert(after[j] == pending[j]);
            }
            if key == request_key(p.id) {
                pending_index_is(after, key, pending.len());
            } else {
                pending_index_is(after, key, after.len());
            }
        }
    }
    pending_index_finds(pending, request_key(p.id));
    assert(replies(after) =~= replies(pending).insert(request_key(p.id), p.reply));
    assert(replies(Seq::<PendingRequest<R>>::empty()) =~= Map::<(Seq<u8>, i64), R>::empty());
    if 0 <= i < pending.len() && (forall|j: int|
        0 <= j < i ==> request_key((#[trigger] pending[j]).id) != request_key(pending[i].id)) {
        pending_index_is(pending, request_key(pending[i].id), i as nat);
    }
}

/// What is told of a response is what came beside it and when it came.
pub proof fn responses_tell_where_they_come_from(
    info: ServiceInfo,
    attachment: Option<Attachment>,
    received: i64,
)
    requires
        responds(info, attachment, received),
    ensures
        info.received_timestamp == received,
        attachment matches Some(a) ==> info.sequence_number == a.sequence_number
            && info.source_timestamp == a.source_timestamp.unix_nanos && info.writer_guid@
            == a.source_gid@,
        attachment is None ==> info.sequence_number == 0 && info.source_timestamp == 0 && forall|
            k: int,
        |
            0 <= k < 16 ==> #[trigger] info.writer_guid@[k] == 0,
{
}

} // verus!
