//! The register of requests in flight: what each one is for, and its reply
//! once it has come.
use crate::request_parser::FromResponse;
use crate::requests::{RequestDescription, RequestId};
use std::collections::HashMap;
use vstd::std_specs::iter::IteratorSpec;
use vstd::prelude::*;

verus! {

broadcast use vstd::std_specs::hash::group_hash_axioms;

/// What is kept of one request.
pub struct RequestData<RequestResponse, RequestInfo, RequestResponseInfo, Callback> {
    pub info: RequestInfo,
    pub description: RequestDescription,
    /// True until the reply has been read in.
    pub awaiting_reply: bool,
    pub callback: Option<Callback>,
    pub response: Option<RequestResponse>,
    pub response_info: Option<RequestResponseInfo>,
}

/// The register of requests: the next id to hand out, and each request by its id.
pub struct RequestCounterView<RequestResponse, RequestInfo, RequestResponseInfo, Callback> {
    pub next_request_id: RequestId,
    pub requests: Map<
        RequestId,
        RequestData<RequestResponse, RequestInfo, RequestResponseInfo, Callback>,
    >,
}

/// The data that a fresh request starts with.
pub open spec fn fresh_request_data<RequestResponse, RequestInfo, RequestResponseInfo, Callback>(
    info: RequestInfo,
    description: RequestDescription,
    callback: Option<Callback>,
) -> RequestData<RequestResponse, RequestInfo, RequestResponseInfo, Callback> {
    RequestData {
        info,
        description,
        awaiting_reply: true,
        callback,
        response: None,
        response_info: None,
    }
}

/// Keeps count of the requests sent and of their replies.
pub struct RequestCounter<RequestResponse, RequestInfo, RequestResponseInfo, Callback> where
    RequestResponse: Clone,
    RequestInfo: Clone,
    RequestResponseInfo: Clone + FromResponse<RequestResponse>,
 {
    next_request_id: RequestId,
    requests: HashMap<
        RequestId,
        RequestData<RequestResponse, RequestInfo, RequestResponseInfo, Callback>,
    >,
}

impl<RequestResponse, RequestInfo, RequestResponseInfo, Callback> View for RequestCounter<
    RequestResponse,
    RequestInfo,
    RequestResponseInfo,
    Callback,
> where
    RequestResponse: Clone,
    RequestInfo: Clone,
    RequestResponseInfo: Clone + FromResponse<RequestResponse>,
 {
    type V = RequestCounterView<RequestResponse, RequestInfo, RequestResponseInfo, Callback>;

    closed spec fn view(&self) -> RequestCounterView<
        RequestResponse,
        RequestInfo,
        RequestResponseInfo,
        Callback,
    > {
        RequestCounterView { next_request_id: self.next_request_id, requests: self.requests@ }
    }
}

impl<RequestResponse, RequestInfo, RequestResponseInfo, Callback> RequestCounter<
    RequestResponse,
    RequestInfo,
    RequestResponseInfo,
    Callback,
> where
    RequestResponse: Clone,
    RequestInfo: Clone,
    RequestResponseInfo: Clone + FromResponse<RequestResponse>,
 {
    /// The id that the next request without a chosen id gets.
    pub fn next_request_id(&self) -> (id: RequestId)
        ensures
            id == self@.next_request_id,
    {
        self.next_request_id
    }

    /// An empty register whose first id is 0.
    pub fn new() -> (r: Self)
        ensures
            r@.next_request_id == 0,
            r@.requests == Map::<
                RequestId,
                RequestData<RequestResponse, RequestInfo, RequestResponseInfo, Callback>,
            >::empty(),
    {
        RequestCounter { next_request_id: 0, requests: HashMap::new() }
    }

    /// Hands out the next id.
    pub fn reserve_id(&mut self) -> (request_id: RequestId)
        requires
            old(self)@.next_request_id < RequestId::MAX,
        ensures
            request_id == old(self)@.next_request_id,
            final(self)@.next_request_id == old(self)@.next_request_id + 1,
            final(self)@.requests == old(self)@.requests,
    {
        let request_id = self.next_request_id;
        self.next_request_id = request_id + 1;
        request_id
    }

    /// Registers a request under the id its description gives, or under a
    /// freshly reserved one when it gives none.
    pub fn push(
        &mut self,
        info: RequestInfo,
        description: RequestDescription,
        callback: Option<Callback>,
    ) -> (request_id: RequestId)
        requires
            description.request_id is None ==> old(self)@.next_request_id < RequestId::MAX,
        ensures
            request_id == (match description.request_id {
                Some(id) => id,
                None => old(self)@.next_request_id,
            }),
            final(self)@.next_request_id == (match description.request_id {
                Some(_) => old(self)@.next_request_id as int,
                None => old(self)@.next_request_id + 1,
            }),
            final(self)@.requests == old(self)@.requests.insert(
                request_id,
                fresh_request_data(info, description, callback),
            ),
    {
        let request_id = match description.request_id {
            Some(id) => id,
            None => self.reserve_id(),
        };
        let data = RequestData {
            info,
            description,
            awaiting_reply: true,
            callback,
            response: None,
            response_info: None,
        };
        self.requests.insert(request_id, data);
        request_id
    }

    /// The description of request `id`, if it is registered.
    pub fn get_description(&self, id: RequestId) -> (r: Option<RequestDescription>)
        ensures
            r == (if self@.requests.contains_key(id) {
                Some(self@.requests[id].description)
            } else {
                None
            }),
    {
        match self.requests.get(&id) {
            Some(d) => Some(d.description),
            None => None,
        }
    }

    /// A copy of the reply to request `id`, if it has come.
    pub fn clone_response(&self, id: RequestId) -> (r: Option<RequestResponse>)
        ensures
            r is Some <==> self@.requests.contains_key(id) && self@.requests[id].response is Some,
            r matches Some(resp) ==> cloned(self@.requests[id].response->0, resp),
    {
        match self.requests.get(&id) {
            Some(d) => match &d.response {
                Some(resp) => Some(resp.clone()),
                None => None,
            },
            None => None,
        }
    }

    /// Hands over the reply to request `id`, if it has come; it is no longer kept.
    fn take_response(&mut self, id: RequestId) -> (r: Option<RequestResponse>)
        ensures
            r == (if old(self)@.requests.contains_key(id) {
                old(self)@.requests[id].response
            } else {
                None
            }),
            final(self)@.next_request_id == old(self)@.next_request_id,
            final(self)@.requests == (if old(self)@.requests.contains_key(id) {
                old(self)@.requests.insert(
                    id,
                    RequestData { response: None, ..old(self)@.requests[id] },
                )
            } else {
                old(self)@.requests
            }),
    {
        match self.requests.remove(&id) {
            Some(d) => {
                let RequestData {
                    info,
                    description,
                    awaiting_reply,
                    callback,
                    response,
                    response_info,
                } = d;
                self.requests.insert(
                    id,
                    RequestData {
                        info,
                        description,
                        awaiting_reply,
                        callback,
                        response: None,
                        response_info,
                    },
                );
                proof {
                    assert(final(self)@.requests =~= old(self)@.requests.insert(
                        id,
                        RequestData { response: None, ..old(self)@.requests[id] },
                    ));
                }
                response
            },
            None => None,
        }
    }

    /// The reply to request `id`, if it has come: a copy when the request's
    /// description keeps its results, else the reply itself, handed over.
    pub fn get_response(&mut self, id: RequestId) -> (r: Option<RequestResponse>)
        ensures
            final(self)@.next_request_id == old(self)@.next_request_id,
            r is Some <==> old(self)@.requests.contains_key(id)
                && old(self)@.requests[id].response is Some,
            old(self)@.requests.contains_key(id) && old(self)@.requests[id].description.save_results
                ==> final(self)@.requests == old(self)@.requests && (r matches Some(resp) ==> cloned(
                old(self)@.requests[id].response->0,
                resp,
            )),
            !(old(self)@.requests.contains_key(id)
                && old(self)@.requests[id].description.save_results) ==> r == (if old(
                self,
            )@.requests.contains_key(id) {
                old(self)@.requests[id].response
            } else {
                None
            }) && final(self)@.requests == (if old(self)@.requests.contains_key(id) {
                old(self)@.requests.insert(
                    id,
                    RequestData { response: None, ..old(self)@.requests[id] },
                )
            } else {
                old(self)@.requests
            }),
    {
        let description = match self.get_description(id) {
            Some(d) => d,
            None => RequestDescription::default(),
        };
        if description.save_results {
            self.clone_response(id)
        } else {
            self.take_response(id)
        }
    }

    /// A copy of what is remembered of request `id`, if it is registered.
    pub fn get_info(&self, id: RequestId) -> (r: Option<RequestInfo>)
        ensures
            r is Some <==> self@.requests.contains_key(id),
            r matches Some(info) ==> cloned(self@.requests[id].info, info),
    {
        match self.requests.get(&id) {
            Some(d) => Some(d.info.clone()),
            None => None,
        }
    }

    /// A copy of the summary of the reply to request `id`, if it has come.
    pub fn get_response_info(&self, id: RequestId) -> (r: Option<RequestResponseInfo>)
        ensures
            r is Some <==> self@.requests.contains_key(id)
                && self@.requests[id].response_info is Some,
            r matches Some(info) ==> cloned(self@.requests[id].response_info->0, info),
    {
        match self.requests.get(&id) {
            Some(d) => match &d.response_info {
                Some(info) => Some(info.clone()),
                None => None,
            },
            None => None,
        }
    }

    /// Hands over the callback of request `id`, if it has one; it is no longer kept.
    pub fn take_callback(&mut self, id: RequestId) -> (r: Option<Callback>)
        ensures
            r == (if old(self)@.requests.contains_key(id) {
                old(self)@.requests[id].callback
            } else {
                None
            }),
            final(self)@.next_request_id == old(self)@.next_request_id,
            final(self)@.requests == (if old(self)@.requests.contains_key(id) {
                old(self)@.requests.insert(
                    id,
                    RequestData { callback: None, ..old(self)@.requests[id] },
                )
            } else {
                old(self)@.requests
            }),
    {
        match self.requests.remove(&id) {
            Some(d) => {
                let RequestData {
                    info,
                    description,
                    awaiting_reply,
                    callback,
                    response,
                    response_info,
                } = d;
                self.requests.insert(
                    id,
                    RequestData {
                        info,
                        description,
                        awaiting_reply,
                        callback: None,
                        response,
                        response_info,
                    },
                );
                proof {
                    assert(final(self)@.requests =~= old(self)@.requests.insert(
                        id,
                        RequestData { callback: None, ..old(self)@.requests[id] },
                    ));
                }
                callback
            },
            None => None,
        }
    }

    /// Whether some registered request holds no reply.
    pub fn any_request_in_progress(&self) -> (r: bool)
        ensures
            r == exists|id: RequestId|
                #[trigger] self@.requests.contains_key(id) && self@.requests[id].response is None,
    {
        let mut found = false;
        let ghost vals = self.requests.values().remaining();
        assert(vals.unref().to_set() == self@.requests.values());
        for data in it: self.requests.values()
            invariant
                it.seq() == vals,
                vals.unref().to_set() == self@.requests.values(),
                found == exists|i: int| 0 <= i < it.index() && (#[trigger] vals[i]).response is None,
        {
            if data.response.is_none() {
                found = true;
            }
        }
        proof {
            let s = vals.unref();
            if found {
                let i = choose|i: int| 0 <= i < vals.len() && (#[trigger] vals[i]).response is None;
                let v = s[i];
                assert(s.contains(v));
                assert(self@.requests.values().contains(v));
                let id = choose|id: RequestId|
                    self@.requests.contains_key(id) && #[trigger] self@.requests[id] == v;
                assert(self@.requests.contains_key(id) && self@.requests[id].response is None);
            } else {
                assert forall|id: RequestId| #[trigger]
                    self@.requests.contains_key(id) implies self@.requests[id].response
                    is Some by {
                    let v = self@.requests[id];
                    assert(self@.requests.values().contains(v));
                    assert(s.to_set().contains(v));
                    assert(s.contains(v));
                    let i = choose|i: int| 0 <= i < s.len() && s[i] == v;
                    assert(*vals[i] == v);
                }
            }
        }
        found
    }

    /// Reads in the reply to request `id`, with its summary, unless a reply was read in before.
    pub fn parse(&mut self, id: RequestId, response: RequestResponse)
        ensures
            final(self)@.next_request_id == old(self)@.next_request_id,
            final(self)@.requests == (if old(self)@.requests.contains_key(id)
                && old(self)@.requests[id].awaiting_reply {
                old(self)@.requests.insert(
                    id,
                    RequestData {
                        awaiting_reply: false,
                        response_info: Some(RequestResponseInfo::spec_from_response(response)),
                        response: Some(response),
                        ..old(self)@.requests[id]
                    },
                )
            } else {
                old(self)@.requests
            }),
    {
        match self.requests.remove(&id) {
            Some(d) => {
                if d.awaiting_reply {
                    let response_info = RequestResponseInfo::from_response(&response);
                    let RequestData { info, description, callback, .. } = d;
                    self.requests.insert(
                        id,
                        RequestData {
                            info,
                            description,
                            awaiting_reply: false,
                            callback,
                            response: Some(response),
                            response_info: Some(response_info),
                        },
                    );
                } else {
                    self.requests.insert(id, d);
                }
                proof {
                    assert(final(self)@.requests =~= (if old(self)@.requests[id].awaiting_reply {
                        old(self)@.requests.insert(
                            id,
                            RequestData {
                                awaiting_reply: false,
                                response_info: Some(
                                    RequestResponseInfo::spec_from_response(response),
                                ),
                                response: Some(response),
                                ..old(self)@.requests[id]
                            },
                        )
                    } else {
                        old(self)@.requests
                    }));
                }
            },
            None => {},
        }
    }
}

} // verus!
