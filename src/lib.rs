use vstd::prelude::*;

pub mod headers;
pub mod lines;
pub mod mock;
pub mod request;
pub mod response;
pub mod server;
pub mod text;

pub use headers::Headers;
pub use request::{HttpRequest, ParseError};
pub use response::HttpResponse;
pub use server::{Action, ConnState, Connection, Event, RequestHandler, Route, Server};

verus! {

} // verus!
