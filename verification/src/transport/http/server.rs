//! The server half of the HTTP transport: who is subscribed, and who gets
//! which message.

use super::{endpoint_data, endpoint_object, messages_url, MESSAGE_SENT};
use crate::error::Error;
use crate::json::{json_of_text, text_of_json, Json, JsonView};
use crate::protocol::error_codes::METHOD_NOT_FOUND;
use crate::protocol::{
    opt_id_view, Message, MessageView, Request, RequestId, RequestIdView, RequestView, Response,
    ResponseError, ResponseErrorView, ResponseView, JSONRPC_VERSION,
};
use crate::session::{ServerStep, ServerStepView, Session, SessionView};
use crate::text::{
    chars_of, matches_at, opt_text, parse_u64, same, slice, starts_with, unsigned_value,
};
use std::collections::HashMap;
use vstd::prelude::*;

verus! {

broadcast use vstd::std_specs::hash::group_hash_axioms;

/// The configuration of the server half.
#[derive(Debug, Clone, PartialEq, Eq)]
pub struct HttpServerConfig {
    /// The socket address to bind, such as `127.0.0.1:3000`.
    pub addr: String,
    /// The bearer token that every request must carry, where one is set.
    pub auth_token: Option<String>,
}

/// What a request carries in its `Authorization` header.
#[derive(Debug, Clone, PartialEq, Eq)]
pub enum AuthHeader {
    /// No such header.
    Missing,
    /// A header whose value is no readable text.
    Unreadable,
    /// A header with this value.
    Text(String),
}

/// Why a request is not authorized.
#[derive(Debug, Clone, Copy, PartialEq, Eq, Structural)]
pub enum AuthFault {
    Missing,
    Unreadable,
    Format,
    Token,
}

/// Whether a request with the header `header` is authorized under the
/// token `expected`; if not, why not. Without a token every request is
/// authorized. With one, the header must be `Bearer`, a space, and exactly
/// the token.
pub open spec fn auth_fault(header: AuthHeader, expected: Option<Seq<char>>) -> Option<AuthFault> {
    match expected {
        None => None,
        Some(token) => match header {
            AuthHeader::Missing => Some(AuthFault::Missing),
            AuthHeader::Unreadable => Some(AuthFault::Unreadable),
            AuthHeader::Text(value) => if !starts_with(value@, "Bearer "@) {
                Some(AuthFault::Format)
            } else if value@.skip("Bearer "@.len() as int) != token {
                Some(AuthFault::Token)
            } else {
                None
            },
        },
    }
}

impl AuthFault {
    /// What the fault says to a human reader.
    pub open spec fn spec_message(self) -> Seq<char> {
        match self {
            AuthFault::Missing => "Missing authorization header"@,
            AuthFault::Unreadable => "Invalid authorization header"@,
            AuthFault::Format => "Invalid authorization format"@,
            AuthFault::Token => "Invalid token"@,
        }
    }

    /// What the fault says to a human reader.
    pub fn message(&self) -> (r: &'static str)
        ensures
            r@ == self.spec_message(),
    {
        match self {
            AuthFault::Missing => "Missing authorization header",
            AuthFault::Unreadable => "Invalid authorization header",
            AuthFault::Format => "Invalid authorization format",
            AuthFault::Token => "Invalid token",
        }
    }
}

/// Finds why a request is not authorized, if it is not.
pub fn check_auth(header: &AuthHeader, auth_token: &Option<String>) -> (r: Option<AuthFault>)
    ensures
        r == auth_fault(*header, opt_text(*auth_token)),
{
    match auth_token {
        None => None,
        Some(token) => match header {
            AuthHeader::Missing => Some(AuthFault::Missing),
            AuthHeader::Unreadable => Some(AuthFault::Unreadable),
            AuthHeader::Text(value) => {
                let v = chars_of(value.as_str());
                let prefix = chars_of("Bearer ");
                if !matches_at(&v, &prefix, 0) {
                    return Some(AuthFault::Format);
                }
                let given = slice(&v, prefix.len(), v.len());
                assert(given@ =~= value@.skip("Bearer "@.len() as int));
                let wanted = chars_of(token.as_str());
                if same(&given, &wanted) {
                    None
                } else {
                    Some(AuthFault::Token)
                }
            },
        },
    }
}

/// Validates the bearer token of a request: a transport error that names
/// the fault where the request is not authorized.
pub fn validate_auth_token(header: &AuthHeader, auth_token: &Option<String>) -> (r: Result<
    (),
    Error,
>)
    ensures
        match auth_fault(*header, opt_text(*auth_token)) {
            None => r is Ok,
            Some(f) => r matches Err(Error::Transport(t)) && t@ == f.spec_message(),
        },
{
    match check_auth(header, auth_token) {
        None => Ok(()),
        Some(f) => Err(Error::Transport(f.message().to_owned())),
    }
}

/// The HTTP status of an accepted request.
pub const STATUS_OK: u16 = 200;

/// The HTTP status of a request whose body is no message.
pub const STATUS_BAD_REQUEST: u16 = 400;

/// The HTTP status of a request that is not authorized.
pub const STATUS_UNAUTHORIZED: u16 = 401;

/// The status with which the authentication layer stops a request, if it
/// stops it: 401 for every fault.
pub fn auth_status(header: &AuthHeader, auth_token: &Option<String>) -> (r: Option<u16>)
    ensures
        r == (if auth_fault(*header, opt_text(*auth_token)) is Some {
            Some(STATUS_UNAUTHORIZED)
        } else {
            None
        }),
{
    match check_auth(header, auth_token) {
        None => None,
        Some(_) => Some(STATUS_UNAUTHORIZED),
    }
}

/// The client id that the value of the client id header names: an unsigned
/// decimal of 64 bits.
pub open spec fn client_id_of(header: Seq<char>) -> Option<u64> {
    match unsigned_value(header) {
        Some(n) => if n <= u64::MAX {
            Some(n as u64)
        } else {
            None
        },
        None => None,
    }
}

/// Reads the client id header.
pub fn parse_client_id(header: &str) -> (r: Option<u64>)
    ensures
        r == client_id_of(header@),
{
    let v = chars_of(header);
    parse_u64(&v)
}

/// The milliseconds after which a client that has sent nothing is evicted.
pub const INACTIVITY_MILLIS: u64 = 300000;

/// The milliseconds between two sweeps for inactive clients.
pub const SWEEP_MILLIS: u64 = 60000;

/// What the server keeps of one subscriber.
#[derive(Debug, PartialEq, Eq)]
pub struct ClientRecord {
    /// The id that the server gave the client.
    pub id: u64,
    /// The id of the last request that the client has posted.
    pub last_request_id: Option<RequestId>,
    /// When the client subscribed or last posted, in milliseconds of the
    /// server's clock.
    pub last_activity: u64,
}

/// The mathematical value of a [`ClientRecord`].
pub struct RecordView {
    pub id: u64,
    pub last_request_id: Option<RequestIdView>,
    pub last_activity: u64,
}

impl View for ClientRecord {
    type V = RecordView;

    open spec fn view(&self) -> RecordView {
        RecordView {
            id: self.id,
            last_request_id: opt_id_view(self.last_request_id),
            last_activity: self.last_activity,
        }
    }
}

impl Clone for ClientRecord {
    fn clone(&self) -> (r: ClientRecord)
        ensures
            r@ == self@,
    {
        let last_request_id = match &self.last_request_id {
            Some(id) => Some(id.clone()),
            None => None,
        };
        ClientRecord { id: self.id, last_request_id, last_activity: self.last_activity }
    }
}

/// One message for one client's outbound queue.
#[derive(Debug, PartialEq, Eq)]
pub struct Delivery {
    /// The client whose queue takes the message.
    pub client_id: u64,
    /// The message.
    pub message: Message,
}

/// The mathematical value of a [`Delivery`].
pub struct DeliveryView {
    pub client_id: u64,
    pub message: MessageView,
}

impl View for Delivery {
    type V = DeliveryView;

    open spec fn view(&self) -> DeliveryView {
        DeliveryView { client_id: self.client_id, message: self.message@ }
    }
}

/// The views of a sequence of deliveries.
pub open spec fn deliveries_view(deliveries: Seq<Delivery>) -> Seq<DeliveryView> {
    deliveries.map_values(|d: Delivery| d@)
}

/// The position of the first record whose last request id is `id`, or the
/// number of records when there is none.
pub open spec fn owner_index(records: Seq<RecordView>, id: RequestIdView) -> int
    decreases records.len(),
{
    if records.len() == 0 || records[0].last_request_id == Some(id) {
        0
    } else {
        1 + owner_index(records.skip(1), id)
    }
}

/// The first position at which a record has the last request id `id` is
/// where no record before has it.
pub proof fn lemma_owner_index(records: Seq<RecordView>, id: RequestIdView, k: int)
    requires
        0 <= k <= records.len(),
        forall|j: int| 0 <= j < k ==> records[j].last_request_id != Some(id),
        k == records.len() || records[k].last_request_id == Some(id),
    ensures
        owner_index(records, id) == k,
    decreases k,
{
    if k > 0 {
        let rest = records.skip(1);
        assert forall|j: int| 0 <= j < k - 1 implies rest[j].last_request_id != Some(id) by {
            assert(rest[j] == records[j + 1]);
        }
        lemma_owner_index(rest, id, k - 1);
    }
}

/// The mathematical value of a [`Registry`]: the records in the order in
/// which their clients subscribed, and the id that the next subscriber
/// gets.
pub struct RegistryView {
    pub records: Seq<RecordView>,
    pub next_client_id: u64,
}

impl RegistryView {
    /// Whether the ids of the records ascend, and all lie below the next
    /// id. No two records then share an id.
    pub open spec fn wf(self) -> bool {
        &&& forall|i: int, j: int|
            0 <= i < j < self.records.len() ==> self.records[i].id < self.records[j].id
        &&& forall|i: int|
            0 <= i < self.records.len() ==> (#[trigger] self.records[i]).id < self.next_client_id
    }

    /// Whether the client `id` is subscribed.
    pub open spec fn has(self, id: u64) -> bool {
        exists|i: int| 0 <= i < self.records.len() && self.records[i].id == id
    }

    /// The ids of the subscribed clients, in the order of the records.
    pub open spec fn ids(self) -> Seq<u64> {
        self.records.map_values(|r: RecordView| r.id)
    }

    /// The registry after a client has subscribed at the time `now`.
    pub open spec fn subscribed(self, now: u64) -> RegistryView
        recommends
            self.next_client_id < u64::MAX,
    {
        RegistryView {
            records: self.records.push(
                RecordView { id: self.next_client_id, last_request_id: None, last_activity: now },
            ),
            next_client_id: (self.next_client_id + 1) as u64,
        }
    }

    /// The registry without the client `id`.
    pub open spec fn without(self, id: u64) -> RegistryView {
        RegistryView { records: self.records.filter(|r: RecordView| r.id != id), ..self }
    }

    /// The registry without the clients that have been silent for `limit`
    /// milliseconds or more at the time `now`.
    pub open spec fn swept(self, now: u64, limit: u64) -> RegistryView {
        RegistryView {
            records: self.records.filter(|r: RecordView| now - r.last_activity < limit),
            ..self
        }
    }

    /// The registry after the client `id` has been active at the time
    /// `now`.
    pub open spec fn touched(self, id: u64, now: u64) -> RegistryView {
        RegistryView {
            records: self.records.map_values(
                |r: RecordView|
                    if r.id == id {
                        RecordView { last_activity: now, ..r }
                    } else {
                        r
                    },
            ),
            ..self
        }
    }

    /// The registry after the client `id` has posted the request
    /// `request`.
    pub open spec fn noted(self, id: u64, request: RequestIdView) -> RegistryView {
        RegistryView {
            records: self.records.map_values(
                |r: RecordView|
                    if r.id == id {
                        RecordView { last_request_id: Some(request), ..r }
                    } else {
                        r
                    },
            ),
            ..self
        }
    }

    /// The registry without any client.
    pub open spec fn cleared(self) -> RegistryView {
        RegistryView { records: Seq::empty(), ..self }
    }

    /// The client to which a response with the id `id` goes: the first
    /// whose last request had that id.
    pub open spec fn owner(self, id: RequestIdView) -> Option<u64> {
        let k = owner_index(self.records, id);
        if 0 <= k < self.records.len() {
            Some(self.records[k].id)
        } else {
            None
        }
    }

    /// The clients that get `message` when the server sends it: a response
    /// goes to the owner of its id, or to nobody; a notification goes to
    /// every client; a request goes to nobody.
    pub open spec fn recipients(self, message: MessageView) -> Seq<u64> {
        match message {
            MessageView::Response(r) => match self.owner(r.id) {
                Some(c) => seq![c],
                None => Seq::empty(),
            },
            MessageView::Notification(_) => self.ids(),
            MessageView::Request(_) => Seq::empty(),
        }
    }

    /// What the server sends: `message` to each recipient.
    pub open spec fn routed(self, message: MessageView) -> Seq<DeliveryView> {
        self.recipients(message).map_values(
            |c: u64| DeliveryView { client_id: c, message },
        )
    }
}

} // verus!

verus! {

/// Whether the ids of `records` ascend.
pub open spec fn ascending(records: Seq<RecordView>) -> bool {
    forall|i: int, j: int| 0 <= i < j < records.len() ==> records[i].id < records[j].id
}

/// Filtering keeps only records that were there, and keeps them in order.
pub proof fn lemma_filter_records(records: Seq<RecordView>, pred: spec_fn(RecordView) -> bool)
    ensures
        forall|k: int|
            0 <= k < records.filter(pred).len() ==> records.contains(
                #[trigger] records.filter(pred)[k],
            ),
        ascending(records) ==> ascending(records.filter(pred)),
    decreases records.len(),
{
    reveal(Seq::filter);
    let kept = records.filter(pred);
    if records.len() > 0 {
        let front = records.drop_last();
        let last = records.last();
        lemma_filter_records(front, pred);
        let sub = front.filter(pred);
        assert forall|k: int| 0 <= k < kept.len() implies records.contains(#[trigger] kept[k]) by {
            if k < sub.len() {
                assert(kept[k] == sub[k]);
                assert(front.contains(sub[k]));
                let j = choose|j: int| 0 <= j < front.len() && front[j] == sub[k];
                assert(records[j] == sub[k]);
            } else {
                assert(kept[k] == last);
                assert(records[records.len() - 1] == last);
            }
        }
        if ascending(records) {
            assert forall|i: int, j: int| 0 <= i < j < front.len() implies front[i].id
                < front[j].id by {
                assert(front[i] == records[i]);
                assert(front[j] == records[j]);
            }
            assert forall|i: int, j: int| 0 <= i < j < kept.len() implies kept[i].id
                < kept[j].id by {
                if j < sub.len() {
                    assert(kept[i] == sub[i]);
                    assert(kept[j] == sub[j]);
                } else {
                    assert(kept[j] == last);
                    assert(kept[i] == sub[i]);
                    assert(front.contains(sub[i]));
                    let m = choose|m: int| 0 <= m < front.len() && front[m] == sub[i];
                    assert(records[m] == sub[i]);
                }
            }
        }
    }
}

/// Filtering a well-formed registry's records leaves it well-formed.
pub proof fn lemma_filter_wf(registry: RegistryView, pred: spec_fn(RecordView) -> bool)
    requires
        registry.wf(),
    ensures
        (RegistryView { records: registry.records.filter(pred), ..registry }).wf(),
{
    lemma_filter_records(registry.records, pred);
    let kept = registry.records.filter(pred);
    assert forall|i: int| 0 <= i < kept.len() implies (#[trigger] kept[i]).id
        < registry.next_client_id by {
        assert(registry.records.contains(kept[i]));
        let j = choose|j: int| 0 <= j < registry.records.len() && registry.records[j] == kept[i];
        assert(registry.records[j].id < registry.next_client_id);
    }
}

/// The filter of a sequence with one more record: the filter of the
/// sequence, and the record after it where the record passes.
pub proof fn lemma_filter_step(records: Seq<RecordView>, pred: spec_fn(RecordView) -> bool, i: int)
    requires
        0 <= i < records.len(),
    ensures
        records.take(i + 1).filter(pred) == (if pred(records[i]) {
            records.take(i).filter(pred).push(records[i])
        } else {
            records.take(i).filter(pred)
        }),
{
    reveal(Seq::filter);
    let t = records.take(i + 1);
    assert(t.drop_last() =~= records.take(i));
    assert(t.last() == records[i]);
}

/// The subscribers of the server: the record of each under its id, and
/// the ids in the order in which the clients came.
pub struct Registry {
    clients: HashMap<u64, ClientRecord>,
    order: Vec<u64>,
    next_client_id: u64,
}

impl View for Registry {
    type V = RegistryView;

    closed spec fn view(&self) -> RegistryView {
        RegistryView {
            records: Seq::new(self.order@.len(), |i: int| self.clients@[self.order@[i]]@),
            next_client_id: self.next_client_id,
        }
    }
}

/// Whether the map holds a record under each id of `order` and under no
/// other key, each record under its own id, and the ids ascend below
/// `next`.
spec fn orderly(clients: Map<u64, ClientRecord>, order: Seq<u64>, next: u64) -> bool {
    &&& forall|i: int|
        0 <= i < order.len() ==> clients.contains_key(#[trigger] order[i]) && clients[order[i]].id
            == order[i]
    &&& forall|k: u64| #[trigger] clients.contains_key(k) ==> order.contains(k)
    &&& forall|i: int, j: int| 0 <= i < j < order.len() ==> order[i] < order[j]
    &&& forall|i: int| 0 <= i < order.len() ==> #[trigger] order[i] < next
}

/// The records of the ids of `order`, in their order.
spec fn records_of(clients: Map<u64, ClientRecord>, order: Seq<u64>) -> Seq<RecordView> {
    Seq::new(order.len(), |i: int| clients[order[i]]@)
}

/// The records of an orderly registry are well-formed, and each has the id
/// at its place in the order.
proof fn lemma_orderly(clients: Map<u64, ClientRecord>, order: Seq<u64>, next: u64)
    requires
        orderly(clients, order, next),
    ensures
        (RegistryView { records: records_of(clients, order), next_client_id: next }).wf(),
        records_of(clients, order).len() == order.len(),
        forall|i: int|
            0 <= i < order.len() ==> (#[trigger] records_of(clients, order)[i]).id == order[i],
        forall|id: u64|
            clients.contains_key(id) <==> (RegistryView {
                records: records_of(clients, order),
                next_client_id: next,
            }).has(id),
{
    let records = records_of(clients, order);
    let view = RegistryView { records, next_client_id: next };
    assert forall|id: u64| clients.contains_key(id) <==> view.has(id) by {
        if clients.contains_key(id) {
            assert(order.contains(id));
            let i = choose|i: int| 0 <= i < order.len() && order[i] == id;
            assert(records[i].id == id);
        }
        if view.has(id) {
            let i = choose|i: int| 0 <= i < records.len() && records[i].id == id;
            assert(order[i] == id);
        }
    }
}

impl Registry {
    /// The map and the order agree, and the ids ascend below the next id.
    #[verifier::type_invariant]
    spec fn ordered(&self) -> bool {
        orderly(self.clients@, self.order@, self.next_client_id)
    }

    /// What the invariant says of the view.
    proof fn lemma_view(&self)
        requires
            self.ordered(),
        ensures
            self@.wf(),
            self@.records == records_of(self.clients@, self.order@),
            self@.records.len() == self.order@.len(),
            forall|i: int| 0 <= i < self.order@.len() ==> (#[trigger] self@.records[i]).id == self.order@[i],
            forall|id: u64| self.clients@.contains_key(id) <==> self@.has(id),
    {
        lemma_orderly(self.clients@, self.order@, self.next_client_id);
    }

    /// Keeps the records for which `keep` holds.
    fn retain(&mut self, keep: Ghost<spec_fn(RecordView) -> bool>, id: Option<u64>, now: u64)
        requires
            match id {
                Some(c) => keep@ == (|r: RecordView| r.id != c),
                None => keep@ == (|r: RecordView| now - r.last_activity < INACTIVITY_MILLIS),
            },
        ensures
            final(self)@.wf(),
            final(self)@ == (RegistryView {
                records: old(self)@.records.filter(keep@),
                ..old(self)@
            }),
    {
        let mut taken = Registry::new();
        std::mem::swap(&mut taken, self);
        proof {
            use_type_invariant(&taken);
            taken.lemma_view();
        }
        let ghost before = taken@.records;
        let Registry { mut clients, order, next_client_id } = taken;
        let ghost start = clients@;
        let mut kept: Vec<u64> = Vec::new();
        let mut dropped: Vec<u64> = Vec::new();
        let mut i: usize = 0;
        proof {
            reveal(Seq::filter);
            assert(before.take(0).filter(keep@) =~= Seq::empty());
            assert(records_of(start, kept@) =~= Seq::empty());
        }
        while i < order.len()
            invariant
                i <= order.len(),
                clients@ == start,
                orderly(start, order@, next_client_id),
                before == records_of(start, order@),
                match id {
                    Some(c) => keep@ == (|r: RecordView| r.id != c),
                    None => keep@ == (|r: RecordView| now - r.last_activity < INACTIVITY_MILLIS),
                },
                records_of(start, kept@) == before.take(i as int).filter(keep@),
                forall|j: int|
                    0 <= j < kept@.len() ==> start.contains_key(#[trigger] kept@[j]) && (keep@)(
                        start[kept@[j]]@,
                    ) && start[kept@[j]].id == kept@[j],
                forall|j: int|
                    0 <= j < dropped@.len() ==> start.contains_key(#[trigger] dropped@[j]) && !(
                    keep@)(start[dropped@[j]]@),
                forall|p: int|
                    0 <= p < i ==> ((keep@)(start[#[trigger] order@[p]]@) ==> kept@.contains(
                        order@[p],
                    )),
                forall|p: int|
                    0 <= p < i ==> (!(keep@)(start[#[trigger] order@[p]]@) ==> dropped@.contains(
                        order@[p],
                    )),
            decreases order.len() - i,
        {
            let key = order[i];
            let ghost record = start[key];
            assert(before[i as int] == record@);
            let stays = match clients.get(&key) {
                Some(r) => match id {
                    Some(c) => r.id != c,
                    None => now < r.last_activity || now - r.last_activity < INACTIVITY_MILLIS,
                },
                None => false,
            };
            assert(stays == (keep@)(record@));
            proof {
                lemma_filter_step(before, keep@, i as int);
            }
            let ghost kept_before = kept@;
            let ghost dropped_before = dropped@;
            if stays {
                kept.push(key);
                proof {
                    assert(records_of(start, kept@) =~= records_of(start, kept_before).push(
                        record@,
                    ));
                    assert(kept@[kept_before.len() as int] == key);
                    assert forall|p: int| 0 <= p < i + 1 && (keep@)(
                        start[#[trigger] order@[p]]@,
                    ) implies kept@.contains(order@[p]) by {
                        if p < i {
                            let m = choose|m: int|
                                0 <= m < kept_before.len() && kept_before[m] == order@[p];
                            assert(kept@[m] == order@[p]);
                        }
                    }
                }
            } else {
                dropped.push(key);
                proof {
                    assert(dropped@[dropped_before.len() as int] == key);
                    assert forall|p: int| 0 <= p < i + 1 && !(keep@)(
                        start[#[trigger] order@[p]]@,
                    ) implies dropped@.contains(order@[p]) by {
                        if p < i {
                            let m = choose|m: int|
                                0 <= m < dropped_before.len() && dropped_before[m] == order@[p];
                            assert(dropped@[m] == order@[p]);
                        }
                    }
                }
            }
            i += 1;
        }
        assert(before.take(i as int) =~= before);
        let mut j: usize = 0;
        while j < dropped.len()
            invariant
                j <= dropped.len(),
                forall|k: u64|
                    #[trigger] clients@.contains_key(k) <==> start.contains_key(k) && !dropped@.take(
                        j as int,
                    ).contains(k),
                forall|k: u64| #[trigger] clients@.contains_key(k) ==> clients@[k] == start[k],
            decreases dropped.len() - j,
        {
            let ghost sofar = dropped@.take(j as int);
            let ghost map_before = clients@;
            let gone = dropped[j];
            clients.remove(&gone);
            proof {
                let next_taken = dropped@.take(j + 1);
                assert(next_taken =~= sofar.push(gone));
                assert forall|k: u64| #[trigger]
                    clients@.contains_key(k) <==> start.contains_key(k) && !next_taken.contains(
                        k,
                    ) by {
                    if next_taken.contains(k) {
                        let m = choose|m: int| 0 <= m < next_taken.len() && next_taken[m] == k;
                        if m < sofar.len() {
                            assert(sofar[m] == k);
                        }
                    }
                    if sofar.contains(k) {
                        let m = choose|m: int| 0 <= m < sofar.len() && sofar[m] == k;
                        assert(next_taken[m] == k);
                    }
                    if k == gone {
                        assert(next_taken[sofar.len() as int] == gone);
                    }
                }
            }
            j += 1;
        }
        proof {
            assert(dropped@.take(j as int) =~= dropped@);
            let records = before.filter(keep@);
            lemma_filter_wf(RegistryView { records: before, next_client_id }, keep@);
            assert forall|m: int| 0 <= m < kept@.len() implies clients@.contains_key(
                #[trigger] kept@[m],
            ) && clients@[kept@[m]].id == kept@[m] by {
                let key = kept@[m];
                assert(start.contains_key(key) && (keep@)(start[key]@) && start[key].id == key);
                if dropped@.contains(key) {
                    let d = choose|d: int| 0 <= d < dropped@.len() && dropped@[d] == key;
                    assert(!(keep@)(start[dropped@[d]]@));
                }
                assert(!dropped@.take(j as int).contains(key));
                assert(clients@.contains_key(key));
                assert(clients@[key] == start[key]);
            }
            assert(records_of(clients@, kept@) =~= records_of(start, kept@));
            assert forall|k: u64| #[trigger] clients@.contains_key(k) implies kept@.contains(k) by {
                assert(start.contains_key(k));
                assert(order@.contains(k));
                let p = choose|p: int| 0 <= p < order@.len() && order@[p] == k;
                if !(keep@)(start[order@[p]]@) {
                    assert(dropped@.contains(order@[p]));
                }
            }
            assert forall|a: int, b: int| 0 <= a < b < kept@.len() implies kept@[a] < kept@[b] by {
                assert(records[a].id == kept@[a]);
                assert(records[b].id == kept@[b]);
            }
            assert forall|a: int| 0 <= a < kept@.len() implies #[trigger] kept@[a]
                < next_client_id by {
                assert(records[a].id == kept@[a]);
            }
        }
        *self = Registry { clients, order: kept, next_client_id };
        proof {
            self.lemma_view();
        }
    }

    /// A registry without clients, whose first subscriber will be client 1.
    pub fn new() -> (r: Registry)
        ensures
            r@ == (RegistryView { records: Seq::empty(), next_client_id: 1 }),
            r@.wf(),
    {
        let r = Registry { clients: HashMap::new(), order: Vec::new(), next_client_id: 1 };
        assert(r@.records =~= Seq::empty());
        r
    }

    /// How many clients are subscribed.
    pub fn len(&self) -> (n: usize)
        ensures
            n == self@.records.len(),
    {
        self.order.len()
    }

    /// Whether the client `id` is subscribed.
    pub fn contains(&self, id: u64) -> (r: bool)
        ensures
            r == self@.has(id),
    {
        proof {
            use_type_invariant(self);
            self.lemma_view();
        }
        self.clients.contains_key(&id)
    }

    /// The ids of the subscribed clients, in the order in which they came.
    pub fn client_ids(&self) -> (r: Vec<u64>)
        ensures
            r@ == self@.ids(),
    {
        proof {
            use_type_invariant(self);
            self.lemma_view();
        }
        let mut out: Vec<u64> = Vec::new();
        let mut i: usize = 0;
        while i < self.order.len()
            invariant
                i <= self.order.len(),
                out@ == self.order@.take(i as int),
            decreases self.order.len() - i,
        {
            out.push(self.order[i]);
            i += 1;
            assert(self.order@.take(i as int) =~= self.order@.take(i - 1).push(self.order@[i - 1]));
        }
        assert(self.order@.take(i as int) =~= self.order@);
        assert(out@ =~= self@.ids());
        out
    }

    /// Takes in a new subscriber at the time `now` and gives it the next
    /// id. Gives `None`, and changes nothing, when the ids are used up.
    pub fn subscribe(&mut self, now: u64) -> (r: Option<u64>)
        ensures
            final(self)@.wf(),
            match r {
                Some(id) => old(self)@.next_client_id < u64::MAX && id == old(
                    self,
                )@.next_client_id && final(self)@ == old(self)@.subscribed(now) && !old(self)@.has(
                    id,
                ),
                None => old(self)@.next_client_id == u64::MAX && final(self)@ == old(self)@,
            },
    {
        proof {
            use_type_invariant(&*self);
            self.lemma_view();
        }
        if self.next_client_id == u64::MAX {
            return None;
        }
        let mut taken = Registry::new();
        std::mem::swap(&mut taken, self);
        let ghost before = taken@.records;
        let Registry { mut clients, mut order, next_client_id } = taken;
        let ghost start = clients@;
        let ghost order_before = order@;
        let id = next_client_id;
        proof {
            if start.contains_key(id) {
                assert(order_before.contains(id));
                let i = choose|i: int| 0 <= i < order_before.len() && order_before[i] == id;
                assert(order_before[i] < next_client_id);
            }
        }
        clients.insert(id, ClientRecord { id, last_request_id: None, last_activity: now });
        order.push(id);
        proof {
            assert forall|k: u64| #[trigger] clients@.contains_key(k) implies order@.contains(k) by {
                if k == id {
                    assert(order@[order_before.len() as int] == id);
                } else {
                    assert(start.contains_key(k));
                    let i = choose|i: int| 0 <= i < order_before.len() && order_before[i] == k;
                    assert(order@[i] == k);
                }
            }
            assert forall|i: int| 0 <= i < order@.len() implies clients@.contains_key(
                #[trigger] order@[i],
            ) && clients@[order@[i]].id == order@[i] by {
                if i < order_before.len() {
                    assert(order@[i] == order_before[i]);
                    assert(order_before[i] < next_client_id);
                }
            }
            assert forall|i: int, j: int| 0 <= i < j < order@.len() implies order@[i]
                < order@[j] by {
                assert(order@[i] == order_before[i]);
                assert(order_before[i] < next_client_id);
                if j < order_before.len() {
                    assert(order@[j] == order_before[j]);
                }
            }
            assert forall|i: int| 0 <= i < order@.len() implies #[trigger] order@[i] < id + 1 by {
                if i < order_before.len() {
                    assert(order@[i] == order_before[i]);
                    assert(order_before[i] < next_client_id);
                }
            }
        }
        *self = Registry { clients, order, next_client_id: id + 1 };
        proof {
            self.lemma_view();
            assert forall|i: int| 0 <= i < self@.records.len() implies self@.records[i] == old(
                self,
            )@.subscribed(now).records[i] by {
                if i < order_before.len() {
                    assert(order@[i] == order_before[i]);
                    assert(order_before[i] < next_client_id);
                    assert(before[i] == start[order_before[i]]@);
                }
            }
            assert(self@.records =~= old(self)@.subscribed(now).records);
        }
        Some(id)
    }

    /// Removes the client `id`, whose stream has ended.
    pub fn unsubscribe(&mut self, id: u64)
        ensures
            final(self)@.wf(),
            final(self)@ == old(self)@.without(id),
    {
        self.retain(Ghost(|r: RecordView| r.id != id), Some(id), 0);
    }

    /// Evicts the clients that have been silent for the inactivity limit or
    /// longer at the time `now`.
    pub fn cleanup_inactive_clients(&mut self, now: u64)
        ensures
            final(self)@.wf(),
            final(self)@ == old(self)@.swept(now, INACTIVITY_MILLIS),
    {
        self.retain(
            Ghost(|r: RecordView| now - r.last_activity < INACTIVITY_MILLIS),
            None,
            now,
        );
    }

    /// Removes every client.
    pub fn clear(&mut self)
        ensures
            final(self)@ == old(self)@.cleared(),
            final(self)@.wf(),
    {
        let next_client_id = self.next_client_id;
        *self = Registry { clients: HashMap::new(), order: Vec::new(), next_client_id };
        assert(self@.records =~= Seq::empty());
    }
}

} // verus!

verus! {

/// What the built-in dispatcher answers to a request: to `ping`, success
/// with the empty object; to `shutdown`, success with null; to anything
/// else, that the method was not found. The answer carries the id of the
/// request.
pub open spec fn reply_to(request: RequestView) -> ResponseView {
    if request.method == "ping"@ {
        ResponseView {
            jsonrpc: JSONRPC_VERSION@,
            id: request.id,
            result: Some(JsonView::Object(Seq::empty())),
            error: None,
        }
    } else if request.method == "shutdown"@ {
        ResponseView {
            jsonrpc: JSONRPC_VERSION@,
            id: request.id,
            result: Some(JsonView::Null),
            error: None,
        }
    } else {
        ResponseView {
            jsonrpc: JSONRPC_VERSION@,
            id: request.id,
            result: None,
            error: Some(
                ResponseErrorView {
                    code: METHOD_NOT_FOUND,
                    message: "Method not found"@,
                    data: None,
                },
            ),
        }
    }
}

/// Every answer of the dispatcher carries the id of its request and exactly
/// one of result and error.
pub proof fn lemma_reply_pairs(request: RequestView)
    ensures
        reply_to(request).id == request.id,
        reply_to(request).one_outcome(),
        MessageView::Response(reply_to(request)).wf(),
{
}

/// Answers a request as the built-in dispatcher does.
pub fn dispatch(request: &Request) -> (r: Response)
    ensures
        r@ == reply_to(request@),
        r@.id == request@.id,
        r@.one_outcome(),
{
    if crate::json::str_eq(request.method.as_str(), "ping") {
        Response::success(Json::empty_object(), request.id.clone())
    } else if crate::json::str_eq(request.method.as_str(), "shutdown") {
        Response::success(Json::Null, request.id.clone())
    } else {
        Response::error(ResponseError::new(METHOD_NOT_FOUND, "Method not found"), request.id.clone())
    }
}

impl RegistryView {
    /// What a posted message does: the registry afterwards, and what goes
    /// to whom. The sender, where it is known, has been active. A request
    /// of a known sender is noted as its last and answered by the
    /// dispatcher, the answer going to the sender if it is subscribed. The
    /// notification `exit` removes every client. Nothing else has an
    /// effect.
    pub open spec fn posted(self, sender: Option<u64>, message: MessageView, now: u64) -> (
        RegistryView,
        Seq<DeliveryView>,
    ) {
        let active = match sender {
            Some(c) => self.touched(c, now),
            None => self,
        };
        match message {
            MessageView::Request(request) => match sender {
                Some(c) => (
                    active.noted(c, request.id),
                    if self.has(c) {
                        seq![
                            DeliveryView {
                                client_id: c,
                                message: MessageView::Response(reply_to(request)),
                            },
                        ]
                    } else {
                        Seq::empty()
                    },
                ),
                None => (active, Seq::empty()),
            },
            MessageView::Notification(n) => if n.method == "exit"@ {
                (active.cleared(), Seq::empty())
            } else {
                (active, Seq::empty())
            },
            MessageView::Response(_) => (active, Seq::empty()),
        }
    }
}

impl Registry {
    /// Puts `record` in the place of the record of the client `id`.
    fn put(&mut self, id: u64, record: ClientRecord)
        requires
            old(self)@.has(id),
            record.id == id,
        ensures
            final(self)@ == (RegistryView {
                records: old(self)@.records.map_values(
                    |r: RecordView|
                        if r.id == id {
                            record@
                        } else {
                            r
                        },
                ),
                ..old(self)@
            }),
    {
        let mut taken = Registry::new();
        std::mem::swap(&mut taken, self);
        proof {
            use_type_invariant(&taken);
            taken.lemma_view();
        }
        let ghost before = taken@.records;
        let Registry { mut clients, order, next_client_id } = taken;
        let ghost start = clients@;
        clients.insert(id, record);
        proof {
            assert forall|k: u64| #[trigger] clients@.contains_key(k) implies order@.contains(k) by {
                if k == id {
                    assert(start.contains_key(id));
                }
            }
        }
        *self = Registry { clients, order, next_client_id };
        proof {
            self.lemma_view();
            assert(self@.records =~= before.map_values(
                |r: RecordView|
                    if r.id == id {
                        record@
                    } else {
                        r
                    },
            ));
        }
    }

    /// A copy of the record of the client `id`.
    fn record_of(&self, id: u64) -> (r: Option<ClientRecord>)
        ensures
            match r {
                Some(record) => self@.has(id) && record.id == id && forall|i: int|
                    0 <= i < self@.records.len() && self@.records[i].id == id
                        ==> self@.records[i] == record@,
                None => !self@.has(id),
            },
    {
        proof {
            use_type_invariant(self);
            self.lemma_view();
        }
        match self.clients.get(&id) {
            Some(found) => {
                let record = found.clone();
                proof {
                    assert(self.order@.contains(id));
                    let p = choose|p: int| 0 <= p < self.order@.len() && self.order@[p] == id;
                    assert(self@.records[p].id == id);
                    assert(record@.id == id);
                }
                Some(record)
            },
            None => None,
        }
    }

    /// Records that the client `id` has been active at the time `now`.
    pub fn touch(&mut self, id: u64, now: u64)
        ensures
            final(self)@.wf(),
            final(self)@ == old(self)@.touched(id, now),
    {
        let ghost before = self@.records;
        match self.record_of(id) {
            Some(found) => {
                let mut record = found;
                record.last_activity = now;
                self.put(id, record);
            },
            None => {
                proof {
                    assert forall|k: int| 0 <= k < before.len() implies before[k] == old(
                        self,
                    )@.touched(id, now).records[k] by {
                        assert(before[k].id != id);
                    }
                }
            },
        }
        proof {
            assert(self@.records =~= old(self)@.touched(id, now).records);
            use_type_invariant(&*self);
            self.lemma_view();
        }
    }

    /// Records `request` as the last request of the client `id`.
    pub fn note_request(&mut self, id: u64, request: &RequestId)
        ensures
            final(self)@.wf(),
            final(self)@ == old(self)@.noted(id, request@),
    {
        let ghost before = self@.records;
        match self.record_of(id) {
            Some(found) => {
                let mut record = found;
                record.last_request_id = Some(request.clone());
                self.put(id, record);
            },
            None => {
                proof {
                    assert forall|k: int| 0 <= k < before.len() implies before[k] == old(
                        self,
                    )@.noted(id, request@).records[k] by {
                        assert(before[k].id != id);
                    }
                }
            },
        }
        proof {
            assert(self@.records =~= old(self)@.noted(id, request@).records);
            use_type_invariant(&*self);
            self.lemma_view();
        }
    }

    /// The client to which a response with the id `id` goes.
    pub fn find_client_by_request_id(&self, id: &RequestId) -> (r: Option<u64>)
        ensures
            r == self@.owner(id@),
    {
        proof {
            use_type_invariant(self);
            self.lemma_view();
        }
        let mut i: usize = 0;
        while i < self.order.len()
            invariant
                i <= self.order.len(),
                self.ordered(),
                self@.records == records_of(self.clients@, self.order@),
                self@.records.len() == self.order@.len(),
                forall|k: int| 0 <= k < self.order@.len() ==> (#[trigger] self@.records[k]).id == self.order@[k],
                forall|k: int| 0 <= k < i ==> self@.records[k].last_request_id != Some(id@),
            decreases self.order.len() - i,
        {
            let key = self.order[i];
            let hit = match self.clients.get(&key) {
                Some(record) => match &record.last_request_id {
                    Some(last) => last.same_as(id),
                    None => false,
                },
                None => false,
            };
            assert(self@.records[i as int] == self.clients@[key]@);
            if hit {
                proof {
                    lemma_owner_index(self@.records, id@, i as int);
                }
                return Some(key);
            }
            i += 1;
        }
        proof {
            lemma_owner_index(self@.records, id@, i as int);
        }
        None
    }

    /// Decides who gets `message` when the server sends it, and makes a
    /// copy for each. A response goes to the one client whose last request
    /// had its id, and is dropped where there is none; a notification goes
    /// to every client; a request goes to nobody.
    pub fn route(&self, message: &Message) -> (r: Vec<Delivery>)
        ensures
            deliveries_view(r@) == self@.routed(message@),
    {
        proof {
            use_type_invariant(self);
            self.lemma_view();
        }
        let mut out: Vec<Delivery> = Vec::new();
        match message {
            Message::Response(response) => {
                match self.find_client_by_request_id(&response.id) {
                    Some(c) => {
                        out.push(Delivery { client_id: c, message: message.clone() });
                    },
                    None => {},
                }
                assert(deliveries_view(out@) =~= self@.routed(message@));
            },
            Message::Notification(_) => {
                let mut i: usize = 0;
                while i < self.order.len()
                    invariant
                        i <= self.order.len(),
                        out@.len() == i,
                        self@.records.len() == self.order@.len(),
                        forall|k: int|
                            0 <= k < self.order@.len() ==> (#[trigger] self@.records[k]).id
                                == self.order@[k],
                        forall|k: int|
                            0 <= k < i ==> out@[k]@ == (DeliveryView {
                                client_id: self@.records[k].id,
                                message: message@,
                            }),
                    decreases self.order.len() - i,
                {
                    out.push(Delivery { client_id: self.order[i], message: message.clone() });
                    i += 1;
                }
                assert(deliveries_view(out@) =~= self@.routed(message@));
            },
            Message::Request(_) => {
                assert(deliveries_view(out@) =~= self@.routed(message@));
            },
        }
        out
    }

    /// Takes in a message that a client has posted, at the time `now`.
    /// `sender` is the client that the post names, if it names one.
    pub fn handle_message(&mut self, sender: Option<u64>, message: &Message, now: u64) -> (r: Vec<
        Delivery,
    >)
        ensures
            final(self)@.wf(),
            (final(self)@, deliveries_view(r@)) == old(self)@.posted(sender, message@, now),
    {
        proof {
            use_type_invariant(&*self);
        }
        match sender {
            Some(c) => {
                self.touch(c, now);
            },
            None => {},
        }
        let mut out: Vec<Delivery> = Vec::new();
        match message {
            Message::Request(request) => {
                match sender {
                    Some(c) => {
                        self.note_request(c, &request.id);
                        if self.contains(c) {
                            let response = dispatch(request);
                            out.push(Delivery { client_id: c, message: Message::Response(response) });
                        }
                        proof {
                            let before = old(self)@;
                            let after = self@;
                            if before.has(c) {
                                let i = choose|i: int|
                                    0 <= i < before.records.len() && before.records[i].id == c;
                                assert(after.records[i].id == c);
                            }
                            if after.has(c) {
                                let i = choose|i: int|
                                    0 <= i < after.records.len() && after.records[i].id == c;
                                assert(before.records[i].id == c);
                            }
                        }
                    },
                    None => {},
                }
            },
            Message::Notification(n) => {
                if crate::json::str_eq(n.method.as_str(), "exit") {
                    self.clear();
                }
            },
            Message::Response(_) => {},
        }
        assert(deliveries_view(out@) =~= old(self)@.posted(sender, message@, now).1);
        out
    }
}

/// The response with the id `id` that the server sends after the client
/// `client` has posted a request with that id goes to `client` and to
/// nobody else, as long as no other client's last request had the same id.
pub proof fn lemma_response_goes_to_sender(
    registry: RegistryView,
    client: u64,
    request: RequestView,
    now: u64,
    response: ResponseView,
)
    requires
        registry.wf(),
        registry.has(client),
        response.id == request.id,
        forall|i: int|
            0 <= i < registry.records.len() && registry.records[i].id != client
                ==> registry.records[i].last_request_id != Some(request.id),
    ensures
        registry.posted(Some(client), MessageView::Request(request), now).0.recipients(
            MessageView::Response(response),
        ) == seq![client],
        registry.posted(Some(client), MessageView::Request(request), now).1 == seq![
            DeliveryView { client_id: client, message: MessageView::Response(reply_to(request)) },
        ],
{
    let after = registry.posted(Some(client), MessageView::Request(request), now).0;
    let i = choose|i: int| 0 <= i < registry.records.len() && registry.records[i].id == client;
    assert(after.records[i].id == client);
    assert(after.records[i].last_request_id == Some(request.id));
    assert forall|j: int| 0 <= j < i implies after.records[j].last_request_id != Some(
        request.id,
    ) by {
        assert(registry.records[j].id < registry.records[i].id);
    }
    lemma_owner_index(after.records, request.id, i);
}

} // verus!

verus! {

/// What the server answers to a POST, and what it sends because of it.
#[derive(Debug, PartialEq, Eq)]
pub struct PostReply {
    /// The HTTP status.
    pub status: u16,
    /// The body of the answer.
    pub body: String,
    /// What goes to whom over the event streams.
    pub deliveries: Vec<Delivery>,
}

/// The client that a POST names in its client id header, if it names one.
pub open spec fn sender_of(header: Option<&str>) -> Option<u64> {
    match header {
        Some(h) => client_id_of(h@),
        None => None,
    }
}

/// The message that a body stands for, or why it stands for none.
pub open spec fn body_message(body: Seq<char>) -> Result<MessageView, Seq<char>> {
    match json_of_text(body) {
        Err(m) => Err(m),
        Ok(v) => match MessageView::of_json(v) {
            Ok(m) => Ok(m),
            Err(f) => Err(f.spec_message()),
        },
    }
}

/// What the server says when the ids for new subscribers are used up.
pub const IDS_EXHAUSTED: &'static str = "Client ids exhausted";

/// What a new subscriber is told first.
#[derive(Debug, PartialEq, Eq)]
pub struct Subscription {
    /// The id of the new client.
    pub client_id: u64,
    /// The data of the endpoint event.
    pub endpoint_data: String,
}

impl Registry {
    /// Takes in a POST at the time `now`: the value of its client id
    /// header, if it has one, and its body. A body that is no message is
    /// answered with 400 and the reason, and changes nothing. Any message
    /// is answered with 200 and has the effect that `posted` describes.
    pub fn handle_post(&mut self, client_header: Option<&str>, body: &str, now: u64) -> (r:
        PostReply)
        ensures
            final(self)@.wf(),
            match body_message(body@) {
                Err(m) => r.status == STATUS_BAD_REQUEST && r.body@ == m && r.deliveries@.len() == 0
                    && final(self)@ == old(self)@,
                Ok(m) => r.status == STATUS_OK && r.body@ == MESSAGE_SENT@ && (
                    final(self)@,
                    deliveries_view(r.deliveries@),
                ) == old(self)@.posted(sender_of(client_header), m, now),
            },
    {
        proof {
            use_type_invariant(&*self);
        }
        let message = match Message::decode(body) {
            Ok(m) => m,
            Err(Error::Serialization(m)) => {
                return PostReply { status: STATUS_BAD_REQUEST, body: m, deliveries: Vec::new() };
            },
            Err(Error::Protocol(m)) => {
                return PostReply { status: STATUS_BAD_REQUEST, body: m, deliveries: Vec::new() };
            },
            Err(_) => {
                assert(false);
                return PostReply {
                    status: STATUS_BAD_REQUEST,
                    body: String::new(),
                    deliveries: Vec::new(),
                };
            },
        };
        let sender = match client_header {
            Some(h) => parse_client_id(h),
            None => None,
        };
        let deliveries = self.handle_message(sender, &message, now);
        PostReply { status: STATUS_OK, body: MESSAGE_SENT.to_owned(), deliveries }
    }

    /// Takes in a new subscriber of the server at `addr`, at the time
    /// `now`: gives it the next id, and the data of the endpoint event that
    /// opens its stream. Nothing changes where this fails.
    pub fn open_stream(&mut self, addr: &str, now: u64) -> (r: Result<Subscription, Error>)
        ensures
            final(self)@.wf(),
            old(self)@.next_client_id == u64::MAX ==> (r matches Err(Error::Transport(t)) && t@
                == IDS_EXHAUSTED@ && final(self)@ == old(self)@),
            old(self)@.next_client_id < u64::MAX ==> match text_of_json(
                endpoint_object("http://"@ + addr@ + "/messages"@, old(self)@.next_client_id),
            ) {
                Ok(data) => r matches Ok(s) && s.client_id == old(self)@.next_client_id
                    && s.endpoint_data@ == data && final(self)@ == old(self)@.subscribed(now),
                Err(m) => r matches Err(Error::Serialization(t)) && t@ == m && final(self)@ == old(
                    self,
                )@,
            },
    {
        proof {
            use_type_invariant(&*self);
        }
        if self.next_client_id == u64::MAX {
            return Err(Error::Transport(IDS_EXHAUSTED.to_owned()));
        }
        let url = messages_url(addr);
        let data = endpoint_data(url.as_str(), self.next_client_id)?;
        match self.subscribe(now) {
            Some(id) => Ok(Subscription { client_id: id, endpoint_data: data }),
            None => {
                assert(false);
                Err(Error::Transport(IDS_EXHAUSTED.to_owned()))
            },
        }
    }
}

/// What goes to the sender of a request after its session has decided: the
/// reply of the session where it made one, the answer of the built-in
/// dispatcher where the session left the request to the handlers, and
/// nothing otherwise.
pub open spec fn session_reply(step: ServerStepView, request: RequestView) -> Option<ResponseView> {
    match step {
        ServerStepView::Reply(r) => Some(r),
        ServerStepView::Dispatch => Some(reply_to(request)),
        _ => None,
    }
}

impl RegistryView {
    /// What a message posted by the client `sender` does where the server
    /// keeps a session for that client: the registry afterwards, the
    /// session afterwards, and what goes to whom. The sender has been
    /// active, and the session takes the message in as a server's session
    /// does. A request is noted as the sender's last, and what the session
    /// decides goes to the sender if it is subscribed: before the handshake
    /// is complete that is the refusal of the session, never the answer of
    /// the dispatcher. The notification `exit` removes every client.
    pub open spec fn posted_in_session(
        self,
        session: SessionView,
        sender: u64,
        message: MessageView,
        now: u64,
        capabilities: JsonView,
        server_info: JsonView,
    ) -> (RegistryView, SessionView, Seq<DeliveryView>) {
        let active = self.touched(sender, now);
        let (next, step) = session.received(message, capabilities, server_info);
        match message {
            MessageView::Request(request) => (
                active.noted(sender, request.id),
                next,
                match session_reply(step, request) {
                    Some(reply) => if self.has(sender) {
                        seq![
                            DeliveryView {
                                client_id: sender,
                                message: MessageView::Response(reply),
                            },
                        ]
                    } else {
                        Seq::empty()
                    },
                    None => Seq::empty(),
                },
            ),
            MessageView::Notification(n) => if n.method == "exit"@ {
                (active.cleared(), next, Seq::empty())
            } else {
                (active, next, Seq::empty())
            },
            MessageView::Response(_) => (active, next, Seq::empty()),
        }
    }
}

/// Over HTTP too, a client that has not completed the handshake gets the
/// refusal of its session for every request but `initialize`, and a second
/// `initialize` is refused: the answer that is enqueued for the sender is
/// the reply of the session.
pub proof fn lemma_session_decides_the_reply(
    registry: RegistryView,
    session: SessionView,
    sender: u64,
    request: RequestView,
    now: u64,
    capabilities: JsonView,
    server_info: JsonView,
)
    requires
        registry.has(sender),
    ensures
        session.received(MessageView::Request(request), capabilities, server_info).1
            matches ServerStepView::Reply(reply) ==> registry.posted_in_session(
            session,
            sender,
            MessageView::Request(request),
            now,
            capabilities,
            server_info,
        ).2 == seq![
            DeliveryView { client_id: sender, message: MessageView::Response(reply) },
        ],
{
}

impl Registry {
    /// Takes in a message that the client `sender` has posted, at the time
    /// `now`, with the session that the server keeps for that client.
    /// `capabilities` and `server_info` are what the server tells of itself
    /// when it answers `initialize`.
    pub fn handle_session_message(
        &mut self,
        session: &mut Session,
        sender: u64,
        message: &Message,
        now: u64,
        capabilities: &Json,
        server_info: &Json,
    ) -> (r: Vec<Delivery>)
        ensures
            final(self)@.wf(),
            (final(self)@, final(session)@, deliveries_view(r@)) == old(self)@.posted_in_session(
                old(session)@,
                sender,
                message@,
                now,
                capabilities@,
                server_info@,
            ),
    {
        self.touch(sender, now);
        let step = session.handle(message, capabilities, server_info);
        let mut out: Vec<Delivery> = Vec::new();
        match message {
            Message::Request(request) => {
                self.note_request(sender, &request.id);
                let reply = match step {
                    ServerStep::Reply(r) => Some(r),
                    ServerStep::Dispatch => Some(dispatch(request)),
                    _ => None,
                };
                match reply {
                    Some(response) => {
                        if self.contains(sender) {
                            out.push(
                                Delivery { client_id: sender, message: Message::Response(response) },
                            );
                        }
                    },
                    None => {},
                }
                proof {
                    let before = old(self)@;
                    let after = self@;
                    if before.has(sender) {
                        let i = choose|i: int|
                            0 <= i < before.records.len() && before.records[i].id == sender;
                        assert(after.records[i].id == sender);
                    }
                    if after.has(sender) {
                        let i = choose|i: int|
                            0 <= i < after.records.len() && after.records[i].id == sender;
                        assert(before.records[i].id == sender);
                    }
                }
            },
            Message::Notification(n) => {
                if crate::json::str_eq(n.method.as_str(), "exit") {
                    self.clear();
                }
            },
            Message::Response(_) => {},
        }
        assert(deliveries_view(out@) =~= old(self)@.posted_in_session(
            old(session)@,
            sender,
            message@,
            now,
            capabilities@,
            server_info@,
        ).2);
        out
    }

    /// Takes in a POST of the client `sender` at the time `now`, with the
    /// session that the server keeps for that client. A body that is no
    /// message is answered with 400 and the reason, and changes nothing.
    /// Any message is answered with 200 and has the effect that
    /// `posted_in_session` describes.
    pub fn handle_session_post(
        &mut self,
        session: &mut Session,
        sender: u64,
        body: &str,
        now: u64,
        capabilities: &Json,
        server_info: &Json,
    ) -> (r: PostReply)
        ensures
            final(self)@.wf(),
            match body_message(body@) {
                Err(m) => r.status == STATUS_BAD_REQUEST && r.body@ == m && r.deliveries@.len() == 0
                    && final(self)@ == old(self)@ && final(session)@ == old(session)@,
                Ok(m) => r.status == STATUS_OK && r.body@ == MESSAGE_SENT@ && (
                    final(self)@,
                    final(session)@,
                    deliveries_view(r.deliveries@),
                ) == old(self)@.posted_in_session(
                    old(session)@,
                    sender,
                    m,
                    now,
                    capabilities@,
                    server_info@,
                ),
            },
    {
        proof {
            use_type_invariant(&*self);
            self.lemma_view();
        }
        let message = match Message::decode(body) {
            Ok(m) => m,
            Err(Error::Serialization(m)) => {
                return PostReply { status: STATUS_BAD_REQUEST, body: m, deliveries: Vec::new() };
            },
            Err(Error::Protocol(m)) => {
                return PostReply { status: STATUS_BAD_REQUEST, body: m, deliveries: Vec::new() };
            },
            Err(_) => {
                assert(false);
                return PostReply {
                    status: STATUS_BAD_REQUEST,
                    body: String::new(),
                    deliveries: Vec::new(),
                };
            },
        };
        let deliveries = self.handle_session_message(
            session,
            sender,
            &message,
            now,
            capabilities,
            server_info,
        );
        PostReply { status: STATUS_OK, body: MESSAGE_SENT.to_owned(), deliveries }
    }
}

/// What the server says when it is asked for a message directly.
pub const NO_DIRECT_RECEIVE: &'static str =
    "Server does not support direct message receiving. Use HTTP POST endpoint instead.";

/// The server half of the HTTP transport, without its listener: the
/// configuration and the registry of subscribers. It decides who may call,
/// what a post does and who gets which message.
pub struct AxumHttpServer {
    config: HttpServerConfig,
    registry: Registry,
}

impl View for AxumHttpServer {
    type V = RegistryView;

    closed spec fn view(&self) -> RegistryView {
        self.registry@
    }
}

impl AxumHttpServer {
    /// The address of the server.
    pub closed spec fn spec_addr(&self) -> Seq<char> {
        self.config.addr@
    }

    /// The bearer token that every request must carry, if one is set.
    pub closed spec fn spec_token(&self) -> Option<Seq<char>> {
        opt_text(self.config.auth_token)
    }

    /// A server without subscribers, whose first subscriber will be
    /// client 1.
    pub fn new(config: HttpServerConfig) -> (r: AxumHttpServer)
        ensures
            r@ == (RegistryView { records: Seq::empty(), next_client_id: 1 }),
            r.spec_addr() == config.addr@,
            r.spec_token() == opt_text(config.auth_token),
    {
        AxumHttpServer { config, registry: Registry::new() }
    }

    /// The address of the server.
    pub fn addr(&self) -> (r: &String)
        ensures
            r@ == self.spec_addr(),
    {
        &self.config.addr
    }

    /// The status with which a request is stopped, if it is stopped: 401
    /// where it does not carry the token of the server.
    pub fn authorize(&self, header: &AuthHeader) -> (r: Option<u16>)
        ensures
            r == (if auth_fault(*header, self.spec_token()) is Some {
                Some(STATUS_UNAUTHORIZED)
            } else {
                None
            }),
    {
        auth_status(header, &self.config.auth_token)
    }

    /// Whether the client `id` is subscribed.
    pub fn contains(&self, id: u64) -> (r: bool)
        ensures
            r == self@.has(id),
    {
        self.registry.contains(id)
    }

    /// Takes in a new subscriber at the time `now`: gives it the next id,
    /// and the data of the endpoint event that opens its stream.
    pub fn sse_handler(&mut self, now: u64) -> (r: Result<Subscription, Error>)
        ensures
            final(self).spec_addr() == old(self).spec_addr(),
            final(self).spec_token() == old(self).spec_token(),
            final(self)@.wf(),
            old(self)@.next_client_id == u64::MAX ==> (r matches Err(Error::Transport(t)) && t@
                == IDS_EXHAUSTED@ && final(self)@ == old(self)@),
            old(self)@.next_client_id < u64::MAX ==> match text_of_json(
                endpoint_object(
                    "http://"@ + old(self).spec_addr() + "/messages"@,
                    old(self)@.next_client_id,
                ),
            ) {
                Ok(data) => r matches Ok(s) && s.client_id == old(self)@.next_client_id
                    && s.endpoint_data@ == data && final(self)@ == old(self)@.subscribed(now),
                Err(m) => r matches Err(Error::Serialization(t)) && t@ == m && final(self)@ == old(
                    self,
                )@,
            },
    {
        self.registry.open_stream(self.config.addr.as_str(), now)
    }

    /// Removes the client `id`, whose stream has ended.
    pub fn unsubscribe(&mut self, id: u64)
        ensures
            final(self).spec_addr() == old(self).spec_addr(),
            final(self).spec_token() == old(self).spec_token(),
            final(self)@ == old(self)@.without(id),
    {
        self.registry.unsubscribe(id);
    }

    /// Evicts the clients that have been silent for the inactivity limit or
    /// longer at the time `now`.
    pub fn cleanup_inactive_clients(&mut self, now: u64)
        ensures
            final(self).spec_addr() == old(self).spec_addr(),
            final(self).spec_token() == old(self).spec_token(),
            final(self)@ == old(self)@.swept(now, INACTIVITY_MILLIS),
    {
        self.registry.cleanup_inactive_clients(now);
    }

    /// Takes in a POST at the time `now`, from a sender that has no
    /// session: the value of its client id header, if it has one, and its
    /// body.
    pub fn handle_post(&mut self, client_header: Option<&str>, body: &str, now: u64) -> (r:
        PostReply)
        ensures
            final(self).spec_addr() == old(self).spec_addr(),
            final(self).spec_token() == old(self).spec_token(),
            match body_message(body@) {
                Err(m) => r.status == STATUS_BAD_REQUEST && r.body@ == m && r.deliveries@.len() == 0
                    && final(self)@ == old(self)@,
                Ok(m) => r.status == STATUS_OK && r.body@ == MESSAGE_SENT@ && (
                    final(self)@,
                    deliveries_view(r.deliveries@),
                ) == old(self)@.posted(sender_of(client_header), m, now),
            },
    {
        self.registry.handle_post(client_header, body, now)
    }

    /// Takes in a POST of the client `sender` at the time `now`, with the
    /// session that the server keeps for that client.
    pub fn message_handler(
        &mut self,
        session: &mut Session,
        sender: u64,
        body: &str,
        now: u64,
        capabilities: &Json,
        server_info: &Json,
    ) -> (r: PostReply)
        ensures
            final(self).spec_addr() == old(self).spec_addr(),
            final(self).spec_token() == old(self).spec_token(),
            match body_message(body@) {
                Err(m) => r.status == STATUS_BAD_REQUEST && r.body@ == m && r.deliveries@.len() == 0
                    && final(self)@ == old(self)@ && final(session)@ == old(session)@,
                Ok(m) => r.status == STATUS_OK && r.body@ == MESSAGE_SENT@ && (
                    final(self)@,
                    final(session)@,
                    deliveries_view(r.deliveries@),
                ) == old(self)@.posted_in_session(
                    old(session)@,
                    sender,
                    m,
                    now,
                    capabilities@,
                    server_info@,
                ),
            },
    {
        self.registry.handle_session_post(session, sender, body, now, capabilities, server_info)
    }

    /// Decides who gets `message` when the server sends it, and makes a
    /// copy for each. A response goes to the one client whose last request
    /// had its id, and is dropped where there is none; a notification goes
    /// to every client; a request goes to nobody.
    pub fn send(&self, message: &Message) -> (r: Vec<Delivery>)
        ensures
            deliveries_view(r@) == self@.routed(message@),
    {
        self.registry.route(message)
    }

    /// The server takes its messages from POSTs: asking it for one directly
    /// is a transport error.
    pub fn receive(&self) -> (r: Result<Message, Error>)
        ensures
            r matches Err(Error::Transport(t)) && t@ == NO_DIRECT_RECEIVE@,
    {
        Err(Error::Transport(NO_DIRECT_RECEIVE.to_owned()))
    }

    /// Removes every client. A second close changes nothing.
    pub fn close(&mut self)
        ensures
            final(self).spec_addr() == old(self).spec_addr(),
            final(self).spec_token() == old(self).spec_token(),
            final(self)@ == old(self)@.cleared(),
    {
        self.registry.clear();
    }
}

} // verus!
