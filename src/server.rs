use vstd::prelude::*;
use vstd::utf8::encode_utf8;

use crate::request::{lossy_of, parse_spec, HttpRequest, ParseError};
use crate::response::{default_entries, serialize, HttpResponse};
use crate::text::{decimal, push_decimal};

verus! {

/// The body of the response that a matched route starts from.
pub open spec fn good_body() -> Seq<char> {
    "<body><h1>Good bye, Browser!</h1></body>"@
}

/// The body of the response to a request that no route serves.
pub open spec fn wrong_body() -> Seq<char> {
    "<body><h1>Wrong!</h1></body>"@
}

/// The wire text of a response built with `status` and `body`.
pub open spec fn response_text(status: u16, body: Seq<char>) -> Seq<char> {
    serialize(status, default_entries(body), body)
}

/// `p` without a leading `'/'`.
pub open spec fn strip_slash(p: Seq<char>) -> Seq<char> {
    if p.len() > 0 && p[0] == '/' {
        p.drop_first()
    } else {
        p
    }
}

/// Whether the route table serves `path`: only the first route is looked at.
pub open spec fn route_matches(routes: Seq<Route>, path: Seq<char>) -> bool {
    routes.len() > 0 && routes[0].path@ == strip_slash(path)
}

/// What the router answers to a request text: the matched route's response,
/// or nothing where the text does not parse or no route serves it.
pub open spec fn dispatch_spec(text: Seq<char>, routes: Seq<Route>) -> Option<Seq<char>> {
    match parse_spec(text) {
        Ok(req) => if route_matches(routes, req.1) {
            Some(response_text(200, good_body()))
        } else {
            None
        },
        Err(_) => None,
    }
}

/// What is written back for a request text: the router's answer, or a 404.
pub open spec fn respond_spec(text: Seq<char>, routes: Seq<Route>) -> Seq<char> {
    match dispatch_spec(text, routes) {
        Some(t) => t,
        None => response_text(404, wrong_body()),
    }
}

pub open spec fn opt_view(r: Option<String>) -> Option<Seq<char>> {
    match r {
        Some(s) => Some(s@),
        None => None,
    }
}

/// A path that the server serves.
#[derive(Clone, Copy, Debug)]
pub struct Route {
    /// The path without its leading `'/'`.
    pub path: &'static str,
}

impl Route {
    /// Handles a matched request: hands the response back unchanged.
    pub fn process_request(&self, req: HttpRequest, res: HttpResponse) -> (r: HttpResponse)
        ensures
            r == res,
    {
        res
    }
}

fn good_body_string() -> (r: String)
    ensures
        r@ == good_body(),
{
    String::from_str("<body><h1>Good bye, Browser!</h1></body>")
}

fn wrong_body_string() -> (r: String)
    ensures
        r@ == wrong_body(),
{
    String::from_str("<body><h1>Wrong!</h1></body>")
}

/// Runs one request through parser, router and response builder.
pub struct RequestHandler {}

impl RequestHandler {
    /// Answers a raw request buffer: the matched route's response as text, or
    /// `None` where the buffer does not parse or no route serves its path.
    pub fn handle(request_buffer: &[u8], routes: &[Route]) -> (r: Option<String>)
        ensures
            opt_view(r) == dispatch_spec(lossy_of(request_buffer@), routes@),
    {
        let parsed = HttpRequest::from_buffer(request_buffer);
        RequestHandler::dispatch(parsed, routes)
    }

    /// Answers the text of a request, as `handle` does for a buffer.
    pub fn handle_text(text: &str, routes: &[Route]) -> (r: Option<String>)
        ensures
            opt_view(r) == dispatch_spec(text@, routes@),
    {
        let parsed = HttpRequest::parse(text);
        RequestHandler::dispatch(parsed, routes)
    }

    fn dispatch(parsed: Result<HttpRequest, ParseError>, routes: &[Route]) -> (r: Option<String>)
        ensures
            opt_view(r) == match crate::request::result_view(parsed) {
                Ok(req) => if route_matches(routes@, req.1) {
                    Some(response_text(200, good_body()))
                } else {
                    None
                },
                Err(_) => None,
            },
    {
        let request = match parsed {
            Ok(q) => q,
            Err(_) => {
                return None;
            },
        };
        let full = request.path();
        let n = full.unicode_len();
        let path = if n > 0 && full.get_char(0) == '/' {
            full.substring_char(1, n)
        } else {
            full
        };
        assert(path@ =~= strip_slash(request@.1));
        if routes.len() == 0 {
            return None;
        }
        let route = &routes[0];
        if !crate::headers::str_eq(route.path, path) {
            return None;
        }
        let response = HttpResponse::new(200, good_body_string());
        let result = route.process_request(request, response);
        Some(result.to_string())
    }

    /// The text written back for a raw request buffer: the router's answer,
    /// or a 404 response with a fixed body.
    pub fn respond(request_buffer: &[u8], routes: &[Route]) -> (r: String)
        ensures
            r@ == respond_spec(lossy_of(request_buffer@), routes@),
    {
        match RequestHandler::handle(request_buffer, routes) {
            Some(t) => t,
            None => not_found(),
        }
    }

    /// The text written back for the text of a request, as `respond` does for
    /// a buffer.
    pub fn respond_text(text: &str, routes: &[Route]) -> (r: String)
        ensures
            r@ == respond_spec(text@, routes@),
    {
        match RequestHandler::handle_text(text, routes) {
            Some(t) => t,
            None => not_found(),
        }
    }
}

/// The text of the 404 response.
fn not_found() -> (r: String)
    ensures
        r@ == response_text(404, wrong_body()),
{
    HttpResponse::new(404, wrong_body_string()).to_string()
}

/// Where a connection stands.
#[derive(Clone, Copy, Debug, PartialEq, Eq, Structural)]
pub enum ConnState {
    /// Waiting for bytes from the peer.
    Reading,
    /// Waiting for a response to be written.
    Writing,
    /// The peer closed the connection: done.
    Closed,
    /// A read or a write failed: done.
    Failed,
}

/// What happened on the socket since the last step.
#[derive(Debug)]
pub enum Event {
    /// A read returned these bytes; none means that the peer closed.
    Received(Vec<u8>),
    /// A read failed.
    ReadFailed,
    /// The whole response was written.
    Written,
    /// Writing the response failed.
    WriteFailed,
}

/// What the connection's owner does next.
#[derive(Debug)]
pub enum Action {
    /// Read from the socket.
    Read,
    /// Write all of these bytes to the socket.
    Write(Vec<u8>),
    /// Stop and drop the connection.
    Finish,
}

/// The state of one connection after `event`: a read of some bytes leads to
/// writing, a read of none closes, a written response leads back to reading,
/// and any failure, or an event that the state does not wait for, fails.
pub open spec fn next_state(state: ConnState, event: Event) -> ConnState {
    match (state, event) {
        (ConnState::Closed, _) => ConnState::Closed,
        (ConnState::Failed, _) => ConnState::Failed,
        (ConnState::Reading, Event::Received(b)) => if b@.len() == 0 {
            ConnState::Closed
        } else {
            ConnState::Writing
        },
        (ConnState::Writing, Event::Written) => ConnState::Reading,
        _ => ConnState::Failed,
    }
}

/// The per-connection read, dispatch and write cycle, as a state machine
/// that is told what happened and answers what to do.
pub struct Connection {
    routes: Vec<Route>,
    state: ConnState,
}

impl Connection {
    /// The route table that this connection dispatches against.
    pub closed spec fn route_seq(&self) -> Seq<Route> {
        self.routes@
    }

    pub closed spec fn spec_state(&self) -> ConnState {
        self.state
    }

    /// A connection that waits for its first request.
    pub fn new(routes: &[Route]) -> (r: Connection)
        ensures
            r.route_seq() == routes@,
            r.spec_state() == ConnState::Reading,
    {
        Connection { routes: copy_routes(routes), state: ConnState::Reading }
    }

    pub fn state(&self) -> (r: ConnState)
        ensures
            r == self.spec_state(),
    {
        self.state
    }

    /// Takes in what happened and says what to do next. Bytes read while
    /// reading are answered with the response to them, as UTF-8; no bytes
    /// close the connection without a write.
    pub fn step(&mut self, event: Event) -> (r: Action)
        ensures
            final(self).route_seq() == old(self).route_seq(),
            final(self).spec_state() == next_state(old(self).spec_state(), event),
            match final(self).spec_state() {
                ConnState::Reading => r matches Action::Read,
                ConnState::Writing => match event {
                    Event::Received(b) => r matches Action::Write(out) && out@ == encode_utf8(
                        respond_spec(lossy_of(b@), old(self).route_seq()),
                    ),
                    _ => false,
                },
                _ => r matches Action::Finish,
            },
    {
        match self.state {
            ConnState::Closed | ConnState::Failed => Action::Finish,
            ConnState::Reading => match event {
                Event::Received(bytes) => {
                    if bytes.len() == 0 {
                        self.state = ConnState::Closed;
                        Action::Finish
                    } else {
                        let text = RequestHandler::respond(bytes.as_slice(), self.routes.as_slice());
                        self.state = ConnState::Writing;
                        Action::Write(text.as_str().as_bytes_vec())
                    }
                },
                _ => {
                    self.state = ConnState::Failed;
                    Action::Finish
                },
            },
            ConnState::Writing => match event {
                Event::Written => {
                    self.state = ConnState::Reading;
                    Action::Read
                },
                _ => {
                    self.state = ConnState::Failed;
                    Action::Finish
                },
            },
        }
    }
}

fn copy_routes(routes: &[Route]) -> (r: Vec<Route>)
    ensures
        r@ == routes@,
{
    let mut out: Vec<Route> = Vec::new();
    let n = routes.len();
    let mut i: usize = 0;
    while i < n
        invariant
            n == routes@.len(),
            i <= n,
            out@ == routes@.subrange(0, i as int),
        decreases n - i,
    {
        out.push(routes[i]);
        assert(out@ =~= routes@.subrange(0, i + 1));
        i = i + 1;
    }
    assert(out@ =~= routes@);
    out
}

/// A server's configuration: the address to listen on and its routes.
pub struct Server {
    address: String,
    routes: Vec<Route>,
}

impl Server {
    pub closed spec fn spec_address(&self) -> Seq<char> {
        self.address@
    }

    pub closed spec fn route_seq(&self) -> Seq<Route> {
        self.routes@
    }

    /// A server for `ip:port`, with no routes.
    pub fn new(ip: &str, port: u16) -> (r: Server)
        ensures
            r.spec_address() == ip@ + ":"@ + decimal(port as nat),
            r.route_seq() == Seq::<Route>::empty(),
    {
        let mut address = String::from_str(ip);
        address.append(":");
        push_decimal(&mut address, port as u64);
        Server { address, routes: Vec::new() }
    }

    pub fn address(&self) -> (r: &str)
        ensures
            r@ == self.spec_address(),
    {
        self.address.as_str()
    }

    /// This server with `routes` added after the ones it has.
    pub fn routes(self, routes: &[Route]) -> (r: Server)
        ensures
            r.spec_address() == self.spec_address(),
            r.route_seq() == self.route_seq() + routes@,
    {
        let mut s = self;
        let mut extra = copy_routes(routes);
        s.routes.append(&mut extra);
        s
    }

    /// The routes, in the order they were added.
    pub fn route_list(&self) -> (r: &[Route])
        ensures
            r@ == self.route_seq(),
    {
        self.routes.as_slice()
    }

    /// A connection that dispatches against this server's routes.
    pub fn connection(&self) -> (r: Connection)
        ensures
            r.route_seq() == self.route_seq(),
            r.spec_state() == ConnState::Reading,
    {
        Connection::new(self.routes.as_slice())
    }
}

/// With no routes, every request is answered with the 404 response.
pub proof fn lemma_no_routes_not_found(text: Seq<char>)
    ensures
        respond_spec(text, Seq::<Route>::empty()) == response_text(404, wrong_body()),
{
}

/// Only the first route takes part in matching: routes after it change
/// nothing. A request that parses is served exactly when its path, without
/// the leading `'/'`, is the first route's path.
pub proof fn lemma_first_route_only(text: Seq<char>, routes: Seq<Route>)
    ensures
        routes.len() > 0 ==> dispatch_spec(text, routes) == dispatch_spec(text, seq![routes[0]]),
        parse_spec(text) matches Ok(req) ==> (dispatch_spec(text, routes) is Some <==> (
        routes.len() > 0 && routes[0].path@ == strip_slash(req.1))),
{
}

/// A connection whose peer sends nothing and closes ends closed, writing
/// nothing.
pub proof fn lemma_close_without_write(b: Vec<u8>)
    requires
        b@.len() == 0,
    ensures
        next_state(ConnState::Reading, Event::Received(b)) == ConnState::Closed,
{
}

} // verus!
