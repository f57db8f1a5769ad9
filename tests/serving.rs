use http_server::mock::call_to_the_database_mock;
use http_server::{Action, ConnState, Connection, Event, HttpResponse, RequestHandler, Route, Server};

const OK_BODY: &str = "<body><h1>Good bye, Browser!</h1></body>";
const WRONG_BODY: &str = "<body><h1>Wrong!</h1></body>";

fn test_routes() -> Vec<Route> {
    vec![Route { path: "test" }]
}

#[test]
fn response_has_default_headers() {
    let res = HttpResponse::new(200, "hello".to_string());
    assert_eq!(res.status_code(), 200);
    assert_eq!(res.body(), "hello");
    assert_eq!(res.headers().get("Content-Type"), Some("text/html"));
    assert_eq!(res.headers().get("Content-Length"), Some("5"));
}

#[test]
fn response_serializes_exactly() {
    let res = HttpResponse::new(200, "hello".to_string());
    assert_eq!(
        res.to_string(),
        "HTTP/1.1 200 OK\r\nContent-Type: text/html\r\nContent-Length: 5\r\nContent-Length: 5\r\n\r\nhello"
    );
}

#[test]
fn content_length_counts_bytes() {
    let res = HttpResponse::new(201, "é€".to_string());
    let text = res.to_string();
    assert_eq!(text.matches("Content-Length: 5\r\n").count(), 2);
    assert!(text.ends_with("\r\n\r\né€"));
    assert!(text.starts_with("HTTP/1.1 201 OK\r\n"));
}

#[test]
fn empty_body_round_trip() {
    let text = HttpResponse::new(204, String::new()).to_string();
    assert_eq!(text.matches("Content-Length: 0\r\n").count(), 2);
    assert!(text.ends_with("\r\n\r\n"));
}

#[test]
fn status_reason_is_always_ok() {
    let text = HttpResponse::new(404, "x".to_string()).to_string();
    assert!(text.starts_with("HTTP/1.1 404 OK\r\n"));
    let text = HttpResponse::new(65535, "x".to_string()).to_string();
    assert!(text.starts_with("HTTP/1.1 65535 OK\r\n"));
}

#[test]
fn add_header_adds_and_overwrites() {
    let mut res = HttpResponse::new(200, "ab".to_string());
    res.add_header("X-Test", "1");
    res.add_header("Content-Type", "text/plain");
    assert_eq!(res.headers().get("X-Test"), Some("1"));
    assert_eq!(res.headers().get("Content-Type"), Some("text/plain"));
    assert_eq!(
        res.to_string(),
        "HTTP/1.1 200 OK\r\nContent-Type: text/plain\r\nContent-Length: 2\r\nX-Test: 1\r\nContent-Length: 2\r\n\r\nab"
    );
}

#[test]
fn no_routes_gives_not_found() {
    let text = RequestHandler::respond(b"GET /test HTTP/1.1\r\nHost: x\r\n\r\n", &[]);
    assert!(text.starts_with("HTTP/1.1 404 OK\r\n"));
    assert!(text.ends_with(WRONG_BODY));
    assert_eq!(RequestHandler::handle(b"GET / HTTP/1.1\r\n\r\n", &[]), None);
}

#[test]
fn single_route_matches_its_path() {
    let routes = test_routes();
    let r = RequestHandler::handle(b"GET /test HTTP/1.1\r\nHost: x\r\n\r\n", &routes);
    assert_eq!(r, Some(HttpResponse::new(200, OK_BODY.to_string()).to_string()));
    assert_eq!(RequestHandler::handle(b"GET /other HTTP/1.1\r\nHost: x\r\n\r\n", &routes), None);
}

#[test]
fn only_first_route_is_tried() {
    let routes = vec![Route { path: "first" }, Route { path: "second" }];
    assert!(RequestHandler::handle(b"GET /first HTTP/1.1\r\n\r\n", &routes).is_some());
    assert_eq!(RequestHandler::handle(b"GET /second HTTP/1.1\r\n\r\n", &routes), None);
}

#[test]
fn path_without_slash_matches_too() {
    let routes = test_routes();
    assert!(RequestHandler::handle_text("GET test HTTP/1.1\r\n\r\n", &routes).is_some());
    assert_eq!(RequestHandler::handle_text("GET //test HTTP/1.1\r\n\r\n", &routes), None);
}

#[test]
fn malformed_request_gives_not_found() {
    let text = RequestHandler::respond(b"GET /test\r\n\r\n", &test_routes());
    assert!(text.starts_with("HTTP/1.1 404 OK\r\n"));
    let text = RequestHandler::respond_text("GET /test HTTP/1.1\r\nbad\r\n\r\n", &test_routes());
    assert!(text.ends_with(WRONG_BODY));
}

#[test]
fn matched_request_is_served() {
    let mut conn = Connection::new(&test_routes());
    let action = conn.step(Event::Received(b"GET /test HTTP/1.1\r\nHost: x\r\n\r\n".to_vec()));
    let bytes = match action {
        Action::Write(b) => b,
        other => panic!("unexpected action {:?}", other),
    };
    let text = String::from_utf8(bytes).unwrap();
    assert!(text.starts_with("HTTP/1.1 200 OK\r\n"));
    assert!(text.contains("Content-Length: 40\r\n"));
    assert_eq!(OK_BODY.len(), 40);
    assert!(text.ends_with(OK_BODY));
    assert_eq!(conn.state(), ConnState::Writing);
    assert!(matches!(conn.step(Event::Written), Action::Read));
    assert_eq!(conn.state(), ConnState::Reading);
}

#[test]
fn missing_path_is_answered_not_found() {
    let mut conn = Connection::new(&test_routes());
    let action = conn.step(Event::Received(b"GET /missing HTTP/1.1\r\nHost: x\r\n\r\n".to_vec()));
    let bytes = match action {
        Action::Write(b) => b,
        other => panic!("unexpected action {:?}", other),
    };
    let text = String::from_utf8(bytes).unwrap();
    assert!(text.starts_with("HTTP/1.1 404 OK\r\n"));
    assert!(text.ends_with("\r\n\r\n<body><h1>Wrong!</h1></body>"));
}

#[test]
fn peer_closing_ends_connection_without_write() {
    let mut conn = Connection::new(&test_routes());
    assert!(matches!(conn.step(Event::Received(Vec::new())), Action::Finish));
    assert_eq!(conn.state(), ConnState::Closed);
    assert!(matches!(conn.step(Event::Written), Action::Finish));
    assert_eq!(conn.state(), ConnState::Closed);
}

#[test]
fn io_failures_fail_connection() {
    let mut conn = Connection::new(&test_routes());
    assert!(matches!(conn.step(Event::ReadFailed), Action::Finish));
    assert_eq!(conn.state(), ConnState::Failed);
    let mut conn = Connection::new(&test_routes());
    assert!(matches!(conn.step(Event::Received(b"x".to_vec())), Action::Write(_)));
    assert!(matches!(conn.step(Event::WriteFailed), Action::Finish));
    assert_eq!(conn.state(), ConnState::Failed);
}

#[test]
fn server_address_and_routes() {
    let server = Server::new("127.0.0.1", 8081);
    assert_eq!(server.address(), "127.0.0.1:8081");
    assert_eq!(server.route_list().len(), 0);
    let server = server.routes(&test_routes()).routes(&[Route { path: "b" }]);
    assert_eq!(server.route_list().len(), 2);
    assert_eq!(server.route_list()[0].path, "test");
    assert_eq!(server.route_list()[1].path, "b");
    assert_eq!(Server::new("::1", 0).address(), "::1:0");
}

#[test]
fn server_connection_uses_routes() {
    let server = Server::new("127.0.0.1", 8081).routes(&test_routes());
    let mut conn = server.connection();
    assert!(matches!(
        conn.step(Event::Received(b"GET /test HTTP/1.1\r\n\r\n".to_vec())),
        Action::Write(_)
    ));
}

#[test]
fn mock_records() {
    let records = call_to_the_database_mock();
    assert_eq!(records[0].id, "1234");
    assert_eq!(records[0].message, "TestMessage");
}
