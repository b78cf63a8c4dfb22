//! Which client asked what: the ids under which requests are known to the
//! server, and what to answer when they come back.

use crate::rpc::{Id, IdView};
use crate::{ClientId, RequestId, ServerRequestId};
use std::collections::HashMap;
use vstd::prelude::*;

verus! {

broadcast use vstd::std_specs::hash::group_hash_axioms;

/// The requests that wait for an answer of the server, and the id for the next.
#[verifier::ext_equal]
pub struct PendingRequests {
    pub pending: Map<ServerRequestId, (ClientId, IdView)>,
    pub next: ServerRequestId,
}

impl PendingRequests {
    /// No request has been made.
    pub open spec fn none() -> PendingRequests {
        PendingRequests { pending: Map::empty(), next: 1 }
    }

    /// The id that comes after this one; after the largest comes the smallest.
    pub open spec fn following(id: ServerRequestId) -> ServerRequestId {
        if id == i64::MAX {
            i64::MIN
        } else {
            (id + 1) as i64
        }
    }

    /// With one more request, under the id that is next.
    pub open spec fn insert(self, client_id: ClientId, request_id: IdView) -> PendingRequests {
        PendingRequests {
            pending: self.pending.insert(self.next, (client_id, request_id)),
            next: PendingRequests::following(self.next),
        }
    }

    /// What waits for an answer under this id.
    pub open spec fn lookup(self, server_id: IdView) -> Option<(ClientId, IdView)> {
        match server_id {
            IdView::Number(number) => if self.pending.contains_key(number) {
                Some(self.pending[number])
            } else {
                None
            },
            _ => None,
        }
    }

    /// Without what waits for an answer under this id.
    pub open spec fn remove(self, server_id: IdView) -> PendingRequests {
        match server_id {
            IdView::Number(number) => PendingRequests {
                pending: self.pending.remove(number),
                next: self.next,
            },
            _ => self,
        }
    }

    /// The ids have been given out in order from 1 on, and the counter has not
    /// come round.
    pub open spec fn in_order(self) -> bool {
        &&& 1 <= self.next
        &&& forall|id: ServerRequestId| #[trigger]
            self.pending.contains_key(id) ==> 1 <= id < self.next
    }
}

/// Maps the ids that the server sees to the clients and their own ids.
pub struct RequestMap {
    inner: HashMap<ServerRequestId, (ClientId, RequestId)>,
    next_server_request_id: ServerRequestId,
}

impl View for RequestMap {
    type V = PendingRequests;

    closed spec fn view(&self) -> PendingRequests {
        PendingRequests {
            pending: self.inner@.map_values(|entry: (ClientId, RequestId)| (entry.0, entry.1@)),
            next: self.next_server_request_id,
        }
    }
}

impl RequestMap {
    /// No request has been made.
    pub fn new() -> (map: RequestMap)
        ensures
            map@ == PendingRequests::none(),
            map@.in_order(),
    {
        let map = RequestMap { inner: HashMap::new(), next_server_request_id: 1 };
        assert(map@ =~= PendingRequests::none());
        map
    }

    /// Notes a request of a client, and gives the id under which the server is
    /// to know it.
    pub fn insert(&mut self, client_id: ClientId, request_id: RequestId) -> (server_id: Id)
        ensures
            server_id@ == IdView::Number(old(self)@.next),
            final(self)@ == old(self)@.insert(client_id, request_id@),
    {
        let server_id = self.next_server_request_id;
        self.next_server_request_id = server_id.wrapping_add(1);
        self.inner.insert(server_id, (client_id, request_id));
        assert(self@ =~= old(self)@.insert(client_id, request_id@));
        Id::Number(server_id)
    }

    /// Takes out what the server has answered: the client and its own id. Only
    /// numbers are ids of the server.
    pub fn remove(&mut self, server_id: &Id) -> (entry: Option<(ClientId, RequestId)>)
        ensures
            match old(self)@.lookup(server_id@) {
                Some(waiting) => entry matches Some(found) && (found.0, found.1@) == waiting,
                None => entry is None,
            },
            final(self)@ == old(self)@.remove(server_id@),
    {
        match server_id {
            Id::Number(number) => {
                let entry = self.inner.remove(number);
                assert(self@ =~= old(self)@.remove(server_id@));
                entry
            },
            _ => None,
        }
    }
}

/// What has been noted comes back under the id that was given for it, once: the
/// answer takes it out again and leaves what was there before.
pub proof fn law_noted_request_comes_back(
    requests: PendingRequests,
    client_id: ClientId,
    request_id: IdView,
)
    requires
        !requests.pending.contains_key(requests.next),
    ensures
        ({
            let server_id = IdView::Number(requests.next);
            let noted = requests.insert(client_id, request_id);
            &&& noted.lookup(server_id) == Some((client_id, request_id))
            &&& noted.remove(server_id).lookup(server_id) is None
            &&& noted.remove(server_id).pending == requests.pending
        }),
{
    assert(requests.insert(client_id, request_id).remove(
        IdView::Number(requests.next),
    ).pending =~= requests.pending);
}

/// As long as the counter has not come round, an id that is given out is new:
/// no request waits under it, it is larger than all of those, and it is not 0.
pub proof fn law_server_ids_are_new(
    requests: PendingRequests,
    client_id: ClientId,
    request_id: IdView,
)
    requires
        requests.in_order(),
    ensures
        !requests.pending.contains_key(requests.next),
        requests.next != 0,
        requests.next < i64::MAX ==> requests.insert(client_id, request_id).in_order(),
        requests.next < i64::MAX ==> requests.insert(client_id, request_id).next > requests.next,
{
}

/// Noting one request and answering another changes nothing for a third.
pub proof fn law_requests_do_not_disturb_each_other(
    requests: PendingRequests,
    client_id: ClientId,
    request_id: IdView,
    answered: IdView,
    other: ServerRequestId,
)
    requires
        other != requests.next,
        answered != IdView::Number(other),
    ensures
        requests.insert(client_id, request_id).lookup(IdView::Number(other)) == requests.lookup(
            IdView::Number(other),
        ),
        requests.remove(answered).lookup(IdView::Number(other)) == requests.lookup(
            IdView::Number(other),
        ),
        requests.in_order() ==> requests.remove(answered).in_order(),
{
}

} // verus!
