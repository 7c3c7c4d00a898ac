//! The server configuration and the per-request dispatch decision: a
//! preflight request is answered on the spot, a matched request becomes
//! a submission, and anything else a not-found response.

use vstd::prelude::*;

use crate::catcher::Catcher;
use crate::cors::{apply_cors_spec, Cors};
use crate::response::{BodyView, Response};
use crate::routing::{found_in, no_match, request_pieces, FoundRoute, Router};
use crate::session::SessionStore;
use crate::status::Status;
use crate::strutil::str_eq;

verus! {

/// What the dispatch bridge does with one request.
pub enum DispatchDecision {
    /// A CORS preflight request: answered at once with this response,
    /// never matched against routes and never submitted.
    Preflight(Response),
    /// A match in the router at this attachment index: to be submitted
    /// to the processing stage.
    Submit(usize, FoundRoute),
    /// No attached router matches: answered with this response.
    NotFound(Response),
}

/// The server configuration: listen address, attached routers, the
/// admission and queue bounds, and the CORS, session and catcher
/// snapshots — all set during the build phase, before serving starts.
pub struct HttpServer {
    pub host: String,
    pub port: u16,
    pub routers: Vec<Router>,
    pub app_data: Option<u64>,
    pub max_connections: usize,
    pub channel_capacity: usize,
    pub cors: Option<Cors>,
    pub session_store: Option<SessionStore>,
    pub catchers: Vec<Catcher>,
    pub template: Option<u64>,
}

impl HttpServer {
    /// A server on the given address, with no routers and the default
    /// bounds: at most 100 connections and a queue of 100.
    pub fn new(addr: (String, u16)) -> (r: HttpServer)
        ensures
            r.host == addr.0,
            r.port == addr.1,
            r.routers@.len() == 0,
            r.app_data is None,
            r.max_connections == 100,
            r.channel_capacity == 100,
            r.cors is None,
            r.session_store is None,
            r.catchers@.len() == 0,
            r.template is None,
    {
        HttpServer {
            host: addr.0,
            port: addr.1,
            routers: Vec::new(),
            app_data: None,
            max_connections: 100,
            channel_capacity: 100,
            cors: None,
            session_store: None,
            catchers: Vec::new(),
            template: None,
        }
    }

    /// Stores the application data handle handed to every handler.
    pub fn app_data(&mut self, data: u64)
        ensures
            *final (self) == (HttpServer { app_data: Some(data), ..*old(self) }),
    {
        self.app_data = Some(data);
    }

    /// Attaches a router; lookup tries routers in attachment order.
    pub fn attach(&mut self, router: Router)
        ensures
            final (self).routers@ == old(self).routers@.push(router),
            final (self).host == old(self).host,
            final (self).port == old(self).port,
            final (self).app_data == old(self).app_data,
            final (self).max_connections == old(self).max_connections,
            final (self).channel_capacity == old(self).channel_capacity,
            final (self).cors == old(self).cors,
            final (self).session_store == old(self).session_store,
            final (self).catchers == old(self).catchers,
            final (self).template == old(self).template,
    {
        self.routers.push(router);
    }

    /// Configures the session store.
    pub fn session_store(&mut self, store: SessionStore)
        ensures
            *final (self) == (HttpServer { session_store: Some(store), ..*old(self) }),
    {
        self.session_store = Some(store);
    }

    /// Stores the template-engine handle handed to handlers.
    pub fn template(&mut self, template: u64)
        ensures
            *final (self) == (HttpServer { template: Some(template), ..*old(self) }),
    {
        self.template = Some(template);
    }

    /// Configures the CORS policy.
    pub fn cors(&mut self, cors: Cors)
        ensures
            *final (self) == (HttpServer { cors: Some(cors), ..*old(self) }),
    {
        self.cors = Some(cors);
    }

    /// Bounds the number of concurrently served connections.
    pub fn max_connections(&mut self, max_connections: usize)
        ensures
            *final (self) == (HttpServer { max_connections, ..*old(self) }),
    {
        self.max_connections = max_connections;
    }

    /// Bounds the submission queue.
    pub fn channel_capacity(&mut self, channel_capacity: usize)
        ensures
            *final (self) == (HttpServer { channel_capacity, ..*old(self) }),
    {
        self.channel_capacity = channel_capacity;
    }

    /// Registers the status catchers; for one status the catcher given
    /// last wins.
    pub fn catchers(&mut self, catchers: Vec<Catcher>)
        ensures
            *final (self) == (HttpServer { catchers, ..*old(self) }),
    {
        self.catchers = catchers;
    }

    /// Decides what to do with one request, before any handler runs:
    /// a preflight request (when a CORS policy is configured) is answered
    /// at once with the policy's no-content response, without route
    /// matching; otherwise the attached routers are tried in order and
    /// the first hit becomes a submission; with no hit anywhere, a
    /// not-found response (with the CORS headers when configured).
    #[verifier::loop_isolation(false)]
    pub fn route_decision(&self, method: &str, uri: &str) -> (r: DispatchDecision)
        ensures
            ({
                let pv = request_pieces(uri@);
                let preflight = method@ == "OPTIONS"@ && self.cors is Some;
                &&& (preflight ==> match (r, self.cors) {
                    (DispatchDecision::Preflight(resp), Some(c)) => resp.status.code == 204 && (
                    resp.body@ matches BodyView::Text(t) && t.len() == 0) && resp.headers@
                        == apply_cors_spec(c, seq![("Content-Type"@, "text/plain"@)]),
                    _ => false,
                })
                &&& (!preflight ==> match r {
                    DispatchDecision::Preflight(_) => false,
                    DispatchDecision::Submit(k, f) => {
                        &&& k < self.routers@.len()
                        &&& found_in(self.routers@[k as int], method@, pv, f)
                        &&& forall|j: int|
                            0 <= j < k ==> no_match(#[trigger] self.routers@[j], method@, pv)
                    },
                    DispatchDecision::NotFound(resp) => {
                        &&& forall|j: int|
                            0 <= j < self.routers@.len() ==> no_match(
                                #[trigger] self.routers@[j],
                                method@,
                                pv,
                            )
                        &&& resp.status.code == 404
                        &&& (resp.body@ matches BodyView::Text(t) && t.len() == 0)
                        &&& resp.headers@ == match self.cors {
                            Some(c) => apply_cors_spec(c, seq![("Content-Type"@, "text/plain"@)]),
                            None => seq![("Content-Type"@, "text/plain"@)],
                        }
                    },
                })
            }),
    {
        if str_eq(method, "OPTIONS") {
            match &self.cors {
                Some(c) => {
                    return DispatchDecision::Preflight(c.preflight_response());
                },
                None => {},
            }
        }
        let n = self.routers.len();
        let mut k: usize = 0;
        while k < n
            invariant
                k <= n,
                n == self.routers@.len(),
                forall|j: int|
                    0 <= j < k ==> no_match(
                        #[trigger] self.routers@[j],
                        method@,
                        request_pieces(uri@),
                    ),
            decreases n - k,
        {
            match self.routers[k].find(method, uri) {
                Some(f) => {
                    return DispatchDecision::Submit(k, f);
                },
                None => {},
            }
            k = k + 1;
        }
        let base = Response::from_status(Status::not_found());
        match &self.cors {
            Some(c) => DispatchDecision::NotFound(c.apply_to_response(base)),
            None => DispatchDecision::NotFound(base),
        }
    }
}

} // verus!
