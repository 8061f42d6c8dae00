//! The link to the server, as far as deciding goes: requests are registered
//! and queued here, and replies are read in here. Sending the queued requests
//! and reading the replies off the network is left to the caller.
use crate::config::Config;
use crate::request_parser::FromResponse;
use crate::requests::{ApiRequest, Credentials, OutgoingRequest, RequestDescription, RequestId};
use crate::requests_container::{RequestCounter, RequestCounterView, RequestData};
use crate::table::TableId;
use vstd::prelude::*;

verus! {

/// A queued request as the state sees it: its id, the user id and key it is
/// signed with (if any), and the request.
pub struct OutgoingView {
    pub id: RequestId,
    pub credentials: Option<(TableId, Seq<u8>)>,
    pub request: ApiRequest,
}

/// The user id and key of optional credentials.
pub open spec fn credentials_view(c: Option<Credentials>) -> Option<(TableId, Seq<u8>)> {
    match c {
        Some(c) => Some((c.user_id, c.key@)),
        None => None,
    }
}

impl View for OutgoingRequest {
    type V = OutgoingView;

    open spec fn view(&self) -> OutgoingView {
        OutgoingView {
            id: self.id,
            credentials: credentials_view(self.credentials),
            request: self.request,
        }
    }
}

/// The views of a sequence of queued requests.
pub open spec fn outgoing_views(s: Seq<OutgoingRequest>) -> Seq<OutgoingView> {
    s.map_values(|o: OutgoingRequest| o@)
}

/// The connector: the server's address, the register of requests, and the
/// queue of requests not yet sent.
pub struct DbConnectorView<RequestResponse, RequestInfo, RequestResponseInfo, Callback> {
    pub server_url: Seq<char>,
    pub requests: RequestCounterView<RequestResponse, RequestInfo, RequestResponseInfo, Callback>,
    pub outbox: Seq<OutgoingView>,
}

/// Registers requests, queues them for sending, and reads in their replies.
pub struct DbConnector<RequestResponse, RequestInfo, RequestResponseInfo, Callback> where
    RequestResponse: Clone,
    RequestInfo: Clone + Default,
    RequestResponseInfo: Clone + FromResponse<RequestResponse>,
 {
    server_url: String,
    requests: RequestCounter<RequestResponse, RequestInfo, RequestResponseInfo, Callback>,
    outbox: Vec<OutgoingRequest>,
}

impl<RequestResponse, RequestInfo, RequestResponseInfo, Callback> View for DbConnector<
    RequestResponse,
    RequestInfo,
    RequestResponseInfo,
    Callback,
> where
    RequestResponse: Clone,
    RequestInfo: Clone + Default,
    RequestResponseInfo: Clone + FromResponse<RequestResponse>,
 {
    type V = DbConnectorView<RequestResponse, RequestInfo, RequestResponseInfo, Callback>;

    closed spec fn view(&self) -> DbConnectorView<
        RequestResponse,
        RequestInfo,
        RequestResponseInfo,
        Callback,
    > {
        DbConnectorView {
            server_url: self.server_url@,
            requests: self.requests@,
            outbox: outgoing_views(self.outbox@),
        }
    }
}

impl<RequestResponse, RequestInfo, RequestResponseInfo, Callback> DbConnector<
    RequestResponse,
    RequestInfo,
    RequestResponseInfo,
    Callback,
> where
    RequestResponse: Clone,
    RequestInfo: Clone + Default,
    RequestResponseInfo: Clone + FromResponse<RequestResponse>,
 {
    /// A connector to the server that `config` names, with nothing registered or queued.
    pub fn new(config: &Config) -> (r: Self)
        ensures
            r@.server_url == config.api_url@,
            r@.requests.next_request_id == 0,
            r@.requests.requests.is_empty(),
            r@.outbox == Seq::<OutgoingView>::empty(),
    {
        let r = DbConnector {
            server_url: config.api_url.clone(),
            requests: RequestCounter::new(),
            outbox: Vec::new(),
        };
        assert(r@.outbox =~= Seq::<OutgoingView>::empty());
        r
    }

    /// The id that the next request without a chosen id gets.
    pub fn next_request_id(&self) -> (id: RequestId)
        ensures
            id == self@.requests.next_request_id,
    {
        self.requests.next_request_id()
    }

    /// The address of the server.
    pub fn server_url(&self) -> (r: &String)
        ensures
            r@ == self@.server_url,
    {
        &self.server_url
    }

    /// Hands out the next request id.
    pub fn reserve_request_id(&mut self) -> (request_id: RequestId)
        requires
            old(self)@.requests.next_request_id < RequestId::MAX,
        ensures
            request_id == old(self)@.requests.next_request_id,
            final(self)@.requests.next_request_id == old(self)@.requests.next_request_id + 1,
            final(self)@.requests.requests == old(self)@.requests.requests,
            final(self)@.outbox == old(self)@.outbox,
            final(self)@.server_url == old(self)@.server_url,
    {
        self.requests.reserve_id()
    }

    /// Registers `request` under the id its description gives (or a fresh
    /// one), and queues it for sending, signed with `credentials`.
    pub fn request(
        &mut self,
        request: ApiRequest,
        credentials: Option<Credentials>,
        info: RequestInfo,
        description: RequestDescription,
        callback: Option<Callback>,
    ) -> (request_id: RequestId)
        requires
            description.request_id is None ==> old(self)@.requests.next_request_id
                < RequestId::MAX,
        ensures
            request_id == (match description.request_id {
                Some(id) => id,
                None => old(self)@.requests.next_request_id,
            }),
            final(self)@.requests.next_request_id == (match description.request_id {
                Some(_) => old(self)@.requests.next_request_id as int,
                None => old(self)@.requests.next_request_id + 1,
            }),
            final(self)@.requests.requests == old(self)@.requests.requests.insert(
                request_id,
                RequestData {
                    info,
                    description,
                    awaiting_reply: true,
                    callback,
                    response: None,
                    response_info: None,
                },
            ),
            final(self)@.outbox == old(self)@.outbox.push(
                OutgoingView { id: request_id, credentials: credentials_view(credentials), request },
            ),
            final(self)@.server_url == old(self)@.server_url,
    {
        let request_id = self.requests.push(info, description, callback);
        let out = OutgoingRequest { id: request_id, credentials, request };
        self.outbox.push(out);
        proof {
            assert(outgoing_views(self.outbox@) =~= outgoing_views(old(self).outbox@).push(out@));
        }
        request_id
    }

    /// Hands over the requests queued for sending, in the order they were queued.
    pub fn take_outgoing(&mut self) -> (r: Vec<OutgoingRequest>)
        ensures
            outgoing_views(r@) == old(self)@.outbox,
            final(self)@.outbox == Seq::<OutgoingView>::empty(),
            final(self)@.requests == old(self)@.requests,
            final(self)@.server_url == old(self)@.server_url,
    {
        let mut r: Vec<OutgoingRequest> = Vec::new();
        std::mem::swap(&mut self.outbox, &mut r);
        assert(outgoing_views(self.outbox@) =~= Seq::<OutgoingView>::empty());
        r
    }

    /// Reads in the replies that have come, in order, and returns the ids of
    /// the requests they answer.
    pub fn poll(&mut self, replies: Vec<(RequestId, RequestResponse)>) -> (polled: Vec<RequestId>)
        ensures
            polled@ == replies@.map_values(|r: (RequestId, RequestResponse)| r.0),
            final(self)@.requests == read_in_all(old(self)@.requests, replies@),
            final(self)@.outbox == old(self)@.outbox,
            final(self)@.server_url == old(self)@.server_url,
    {
        let mut polled: Vec<RequestId> = Vec::new();
        let mut replies = replies;
        let ghost all = replies@;
        let ghost start = self@.requests;
        while replies.len() > 0
            invariant
                polled@ + replies@.map_values(|r: (RequestId, RequestResponse)| r.0)
                    == all.map_values(|r: (RequestId, RequestResponse)| r.0),
                read_in_all(self@.requests, replies@) == read_in_all(start, all),
                self@.outbox == old(self)@.outbox,
                self@.server_url == old(self)@.server_url,
            decreases replies@.len(),
        {
            let ghost before = replies@;
            let (id, response) = replies.remove(0);
            proof {
                assert(before =~= seq![(id, response)] + replies@);
                lemma_read_in_all_first(self@.requests, (id, response), replies@);
                assert(before.map_values(|r: (RequestId, RequestResponse)| r.0) =~= seq![id]
                    + replies@.map_values(|r: (RequestId, RequestResponse)| r.0));
            }
            self.requests.parse(id, response);
            polled.push(id);
            proof {
                assert(polled@ + replies@.map_values(|r: (RequestId, RequestResponse)| r.0)
                    =~= all.map_values(|r: (RequestId, RequestResponse)| r.0));
            }
        }
        proof {
            assert(polled@ =~= all.map_values(|r: (RequestId, RequestResponse)| r.0));
        }
        polled
    }

    /// A copy of what is remembered of request `request_id`, if it is registered.
    pub fn get_request_info(&self, request_id: RequestId) -> (r: Option<RequestInfo>)
        ensures
            r is Some <==> self@.requests.requests.contains_key(request_id),
            r matches Some(info) ==> cloned(self@.requests.requests[request_id].info, info),
    {
        self.requests.get_info(request_id)
    }

    /// The reply to request `request_id`, if it has come (a copy, or handed
    /// over, as its description says).
    pub fn get_response(&mut self, request_id: RequestId) -> (r: Option<RequestResponse>)
        ensures
            final(self)@.outbox == old(self)@.outbox,
            final(self)@.server_url == old(self)@.server_url,
            final(self)@.requests.next_request_id == old(self)@.requests.next_request_id,
            r is Some <==> old(self)@.requests.requests.contains_key(request_id)
                && old(self)@.requests.requests[request_id].response is Some,
            saves_results(old(self)@.requests, request_id) ==> final(self)@.requests.requests
                == old(self)@.requests.requests && (r matches Some(resp) ==> cloned(
                old(self)@.requests.requests[request_id].response->0,
                resp,
            )),
            !saves_results(old(self)@.requests, request_id) ==> r == response_of(
                old(self)@.requests,
                request_id,
            ) && final(self)@.requests.requests == without_response(
                old(self)@.requests,
                request_id,
            ),
    {
        self.requests.get_response(request_id)
    }

    /// A copy of the summary of the reply to request `request_id`, if it has come.
    pub fn get_response_info(&self, request_id: RequestId) -> (r: Option<RequestResponseInfo>)
        ensures
            r is Some <==> self@.requests.requests.contains_key(request_id)
                && self@.requests.requests[request_id].response_info is Some,
            r matches Some(info) ==> cloned(
                self@.requests.requests[request_id].response_info->0,
                info,
            ),
    {
        self.requests.get_response_info(request_id)
    }

    /// Hands over the callback of request `request_id`, if it has one.
    pub fn take_callback(&mut self, request_id: RequestId) -> (r: Option<Callback>)
        ensures
            r == (if old(self)@.requests.requests.contains_key(request_id) {
                old(self)@.requests.requests[request_id].callback
            } else {
                None
            }),
            final(self)@.outbox == old(self)@.outbox,
            final(self)@.server_url == old(self)@.server_url,
            final(self)@.requests.next_request_id == old(self)@.requests.next_request_id,
            final(self)@.requests.requests == (if old(self)@.requests.requests.contains_key(
                request_id,
            ) {
                old(self)@.requests.requests.insert(
                    request_id,
                    RequestData { callback: None, ..old(self)@.requests.requests[request_id] },
                )
            } else {
                old(self)@.requests.requests
            }),
    {
        self.requests.take_callback(request_id)
    }

    /// Whether some registered request holds no reply.
    pub fn any_request_in_progress(&self) -> (r: bool)
        ensures
            r == exists|id: RequestId| #[trigger]
                self@.requests.requests.contains_key(id)
                    && self@.requests.requests[id].response is None,
    {
        self.requests.any_request_in_progress()
    }
}

/// Whether request `id` is registered with a description that keeps its results.
pub open spec fn saves_results<RequestResponse, RequestInfo, RequestResponseInfo, Callback>(
    c: RequestCounterView<RequestResponse, RequestInfo, RequestResponseInfo, Callback>,
    id: RequestId,
) -> bool {
    c.requests.contains_key(id) && c.requests[id].description.save_results
}

/// The reply held for request `id`, if any.
pub open spec fn response_of<RequestResponse, RequestInfo, RequestResponseInfo, Callback>(
    c: RequestCounterView<RequestResponse, RequestInfo, RequestResponseInfo, Callback>,
    id: RequestId,
) -> Option<RequestResponse> {
    if c.requests.contains_key(id) {
        c.requests[id].response
    } else {
        None
    }
}

/// The requests after the reply to request `id` has been handed over.
pub open spec fn without_response<RequestResponse, RequestInfo, RequestResponseInfo, Callback>(
    c: RequestCounterView<RequestResponse, RequestInfo, RequestResponseInfo, Callback>,
    id: RequestId,
) -> Map<RequestId, RequestData<RequestResponse, RequestInfo, RequestResponseInfo, Callback>> {
    if c.requests.contains_key(id) {
        c.requests.insert(id, RequestData { response: None, ..c.requests[id] })
    } else {
        c.requests
    }
}

/// The register after the reply `response` to request `id` is read in: it is
/// kept, with its summary, unless a reply to that request was read in before.
pub open spec fn read_in<RequestResponse, RequestInfo, RequestResponseInfo, Callback>(
    c: RequestCounterView<RequestResponse, RequestInfo, RequestResponseInfo, Callback>,
    id: RequestId,
    response: RequestResponse,
) -> RequestCounterView<RequestResponse, RequestInfo, RequestResponseInfo, Callback> where
    RequestResponseInfo: FromResponse<RequestResponse>,
 {
    RequestCounterView {
        next_request_id: c.next_request_id,
        requests: if c.requests.contains_key(id) && c.requests[id].awaiting_reply {
            c.requests.insert(
                id,
                RequestData {
                    awaiting_reply: false,
                    response_info: Some(RequestResponseInfo::spec_from_response(response)),
                    response: Some(response),
                    ..c.requests[id]
                },
            )
        } else {
            c.requests
        },
    }
}

/// The register after the replies `replies` are read in, in order.
pub open spec fn read_in_all<RequestResponse, RequestInfo, RequestResponseInfo, Callback>(
    c: RequestCounterView<RequestResponse, RequestInfo, RequestResponseInfo, Callback>,
    replies: Seq<(RequestId, RequestResponse)>,
) -> RequestCounterView<RequestResponse, RequestInfo, RequestResponseInfo, Callback> where
    RequestResponseInfo: FromResponse<RequestResponse>,
 decreases replies.len(),
{
    if replies.len() == 0 {
        c
    } else {
        read_in_all(read_in(c, replies[0].0, replies[0].1), replies.drop_first())
    }
}

/// Reading in a first reply and then the rest is reading in them all.
proof fn lemma_read_in_all_first<RequestResponse, RequestInfo, RequestResponseInfo, Callback>(
    c: RequestCounterView<RequestResponse, RequestInfo, RequestResponseInfo, Callback>,
    first: (RequestId, RequestResponse),
    rest: Seq<(RequestId, RequestResponse)>,
) where RequestResponseInfo: FromResponse<RequestResponse>
    ensures
        read_in_all(c, seq![first] + rest) == read_in_all(read_in(c, first.0, first.1), rest),
{
    let s = seq![first] + rest;
    assert(s.drop_first() =~= rest);
}

/// A reply read in for a request that awaits one is handed over once: it is
/// what the request then holds; after it is handed over, the request holds
/// none, unless the request keeps its results. A second reply to the same
/// request is not read in.
pub proof fn law_reply_handed_over<RequestResponse, RequestInfo, RequestResponseInfo, Callback>(
    c: RequestCounterView<RequestResponse, RequestInfo, RequestResponseInfo, Callback>,
    id: RequestId,
    response: RequestResponse,
    second: RequestResponse,
) where RequestResponseInfo: FromResponse<RequestResponse>
    requires
        c.requests.contains_key(id),
        c.requests[id].awaiting_reply,
    ensures
        response_of(read_in(c, id, response), id) == Some(response),
        !saves_results(read_in(c, id, response), id) ==> response_of(
            RequestCounterView {
                requests: without_response(read_in(c, id, response), id),
                ..read_in(c, id, response)
            },
            id,
        ) is None,
        saves_results(read_in(c, id, response), id) == saves_results(c, id),
        read_in(read_in(c, id, response), id, second) == read_in(c, id, response),
{
}

} // verus!
