use std::collections::HashMap;
use std::collections::HashSet;

use tape_proxy::codec::{Header, MalformedRecording, Version};
use tape_proxy::dispatch::{
    failure_code, record, replay, Action, Config, DispatchError, Dispatcher, Event, StorageError,
};
use tape_proxy::message::{OutboundRequest, Reply, Request, UpstreamResponse};

fn field(name: &str, value: &str) -> Header {
    Header { name: name.as_bytes().to_vec(), value: value.as_bytes().to_vec() }
}

fn config(replay_only: bool) -> Config {
    Config {
        bind: "127.0.0.1".to_string(),
        port: 3000,
        upstream: "https://upstream.test".to_string(),
        tapes: "tapes".to_string(),
        replay_only,
    }
}

fn request(method: &str, path: &str, headers: Vec<Header>, body: &[u8]) -> Request {
    Request {
        method: method.to_string(),
        path: path.to_string(),
        version: Version::Http11,
        headers,
        body: body.to_vec(),
    }
}

fn ok_json() -> UpstreamResponse {
    UpstreamResponse {
        version: Version::Http11,
        code: 200,
        reason: None,
        headers: vec![field("Content-Type", "application/json")],
        body: b"{\"id\":42}".to_vec(),
    }
}

/// A tape store and an upstream that live in memory.
struct World {
    dirs: HashSet<String>,
    files: HashMap<String, Vec<u8>>,
    upstream: Option<UpstreamResponse>,
    forwarded: Vec<OutboundRequest>,
}

impl World {
    fn new(upstream: Option<UpstreamResponse>) -> World {
        World { dirs: HashSet::new(), files: HashMap::new(), upstream, forwarded: Vec::new() }
    }

    /// Runs one request to its end, doing what each action says.
    fn serve(&mut self, config: Config, request: Request) -> Result<Reply, DispatchError> {
        let (mut state, mut action) = Dispatcher::start(config, request);
        loop {
            let event = match action {
                Action::EnsureContainer { dir } => {
                    self.dirs.insert(dir);
                    Event::ContainerReady
                }
                Action::Exists { file } => Event::Exists(self.files.contains_key(&file)),
                Action::Read { file } => match self.files.get(&file) {
                    Some(bytes) => Event::ReadDone(bytes.clone()),
                    None => Event::ReadFailed,
                },
                Action::Forward { request } => {
                    self.forwarded.push(request);
                    match &self.upstream {
                        Some(response) => Event::Upstream(response.clone()),
                        None => Event::UpstreamFailed,
                    }
                }
                Action::Write { file, bytes } => {
                    self.files.insert(file, bytes);
                    Event::Written
                }
                Action::Respond { reply } => {
                    assert!(state.is_finished());
                    return Ok(reply);
                }
                Action::Fail { error } => {
                    assert!(state.is_finished());
                    return Err(error);
                }
            };
            let next = state.step(event);
            state = next.0;
            action = next.1;
        }
    }
}

#[test]
fn a_get_is_recorded_and_then_replayed_without_upstream() {
    let mut world = World::new(Some(ok_json()));
    let first = world.serve(config(false), request("GET", "/users/42", vec![], b"")).unwrap();
    assert_eq!(
        first,
        Reply {
            code: 200,
            reason: None,
            headers: vec![field("Content-Type", "application/json")],
            body: b"{\"id\":42}".to_vec(),
        }
    );
    assert_eq!(world.forwarded.len(), 1);
    assert!(world.dirs.contains("tapes//users/42"));
    assert_eq!(
        world.files.get("tapes//users/42/GET"),
        Some(&b"HTTP/1.1 200 OK\r\nContent-Type:application/json\r\n\r\n{\"id\":42}".to_vec())
    );
    assert_eq!(world.files.len(), 1);

    let second = world.serve(config(false), request("GET", "/users/42", vec![], b"")).unwrap();
    assert_eq!(second, first);
    assert_eq!(world.forwarded.len(), 1);
}

#[test]
fn a_post_with_another_body_replays_the_first_recording() {
    let mut world = World::new(Some(UpstreamResponse {
        version: Version::Http11,
        code: 200,
        reason: None,
        headers: vec![field("set-cookie", "session=alice")],
        body: b"welcome alice".to_vec(),
    }));
    let alice = request("POST", "/login", vec![field("x-user", "alice")], b"user=alice");
    let first = world.serve(config(false), alice).unwrap();
    world.upstream = Some(UpstreamResponse {
        version: Version::Http11,
        code: 403,
        reason: None,
        headers: vec![],
        body: b"go away".to_vec(),
    });
    let bob = request("POST", "/login", vec![field("x-user", "bob")], b"user=bob&more=1");
    let second = world.serve(config(false), bob).unwrap();
    assert_eq!(second, first);
    assert_eq!(second.body, b"welcome alice".to_vec());
    assert_eq!(world.forwarded.len(), 1);
    assert_eq!(world.forwarded[0].body, b"user=alice".to_vec());
}

#[test]
fn an_unreachable_upstream_fails_the_request_and_leaves_no_tape() {
    let mut world = World::new(None);
    let outcome = world.serve(config(false), request("GET", "/users/42", vec![], b""));
    assert_eq!(outcome, Err(DispatchError::UpstreamUnavailable));
    assert!(!world.files.contains_key("tapes//users/42/GET"));
    assert!(world.files.is_empty());
    assert_eq!(world.forwarded.len(), 1);
}

#[test]
fn replay_only_answers_a_miss_with_501_and_echoes_accept() {
    let mut world = World::new(Some(ok_json()));
    let asked = request(
        "DELETE",
        "/anything/at/all?x=1",
        vec![field("host", "h"), field("accept", "text/csv")],
        b"ignored",
    );
    let reply = world.serve(config(true), asked).unwrap();
    assert_eq!(reply, Reply { code: 501, reason: None, headers: vec![field("accept", "text/csv")], body: vec![] });
    assert!(world.forwarded.is_empty());
    assert!(world.files.is_empty());
}

#[test]
fn replay_only_answers_a_miss_without_accept_with_no_header() {
    let mut world = World::new(None);
    let reply = world.serve(config(true), request("GET", "/", vec![], b"")).unwrap();
    assert_eq!(reply, Reply { code: 501, reason: None, headers: vec![], body: vec![] });
}

#[test]
fn replay_only_still_plays_a_tape_back() {
    let mut world = World::new(None);
    world.files.insert("tapes//ping/GET".to_string(), b"HTTP/1.1 200 OK\r\n\r\npong".to_vec());
    let reply = world.serve(config(true), request("GET", "/ping", vec![], b"")).unwrap();
    assert_eq!(reply, Reply { code: 200, reason: None, headers: vec![], body: b"pong".to_vec() });
}

#[test]
fn a_tape_that_cannot_be_read_fails_the_request_and_is_not_forwarded() {
    let mut world = World::new(Some(ok_json()));
    world.files.insert("tapes//broken/GET".to_string(), b"not a recording".to_vec());
    let outcome = world.serve(config(false), request("GET", "/broken", vec![], b""));
    assert_eq!(
        outcome,
        Err(DispatchError::MalformedRecording(MalformedRecording::NoBoundary))
    );
    assert!(world.forwarded.is_empty());
    assert_eq!(world.files.get("tapes//broken/GET"), Some(&b"not a recording".to_vec()));
}

#[test]
fn start_asks_for_the_directory_of_the_path() {
    let asked = request("GET", "/users/42?full=1", vec![], b"");
    let (state, action) = Dispatcher::start(config(false), asked.clone());
    assert_eq!(action, Action::EnsureContainer { dir: "tapes//users/42?full=1".to_string() });
    assert_eq!(state, Dispatcher::Lookup { config: config(false), request: asked });
    assert!(!state.is_finished());
}

#[test]
fn lookup_goes_on_to_the_existence_check() {
    let asked = request("PUT", "/a", vec![], b"");
    let state = Dispatcher::Lookup { config: config(false), request: asked.clone() };
    let (next, action) = state.step(Event::ContainerReady);
    assert_eq!(action, Action::Exists { file: "tapes//a/PUT".to_string() });
    assert_eq!(next, Dispatcher::Probe { config: config(false), request: asked });
}

#[test]
fn a_directory_that_cannot_be_made_fails_the_request() {
    let state = Dispatcher::Lookup { config: config(false), request: request("GET", "/", vec![], b"") };
    let (next, action) = state.step(Event::ContainerFailed);
    assert_eq!(action, Action::Fail { error: DispatchError::Storage(StorageError::Container) });
    assert_eq!(next, Dispatcher::Finished);
}

#[test]
fn a_hit_reads_the_tape() {
    let state = Dispatcher::Probe { config: config(false), request: request("GET", "/a", vec![], b"") };
    let (next, action) = state.step(Event::Exists(true));
    assert_eq!(action, Action::Read { file: "tapes//a/GET".to_string() });
    assert_eq!(next, Dispatcher::Playback);
}

#[test]
fn a_miss_forwards_the_request_as_it_came() {
    let headers = vec![field("host", "proxy.test"), field("connection", "close")];
    let asked = request("POST", "/a?b=1", headers.clone(), b"body");
    let state = Dispatcher::Probe { config: config(false), request: asked };
    let (next, action) = state.step(Event::Exists(false));
    assert_eq!(
        action,
        Action::Forward {
            request: OutboundRequest {
                method: "POST".to_string(),
                uri: "https://upstream.test/a?b=1".to_string(),
                version: Version::Http11,
                headers,
                body: b"body".to_vec(),
            }
        }
    );
    assert_eq!(next, Dispatcher::Forward { file: "tapes//a?b=1/POST".to_string() });
}

#[test]
fn a_tape_that_cannot_be_fetched_fails_the_request() {
    let (next, action) = Dispatcher::Playback.step(Event::ReadFailed);
    assert_eq!(action, Action::Fail { error: DispatchError::Storage(StorageError::Read) });
    assert_eq!(next, Dispatcher::Finished);
}

#[test]
fn each_way_a_tape_is_malformed_fails_the_request() {
    let cases: Vec<(&[u8], MalformedRecording)> = vec![
        (b"HTTP/1.1 200 OK\r\n", MalformedRecording::NoBoundary),
        (b"HTTP/1.1 two hundred\r\n\r\n", MalformedRecording::StatusLine),
        (b"HTTP/1.1 200 OK\r\nbroken\r\n\r\n", MalformedRecording::HeaderLine),
    ];
    for (bytes, kind) in cases {
        let (next, action) = Dispatcher::Playback.step(Event::ReadDone(bytes.to_vec()));
        assert_eq!(action, Action::Fail { error: DispatchError::MalformedRecording(kind) });
        assert_eq!(next, Dispatcher::Finished);
    }
}

#[test]
fn an_answer_is_written_before_it_is_passed_on() {
    let state = Dispatcher::Forward { file: "tapes//a/GET".to_string() };
    let (next, action) = state.step(Event::Upstream(ok_json()));
    assert_eq!(
        action,
        Action::Write {
            file: "tapes//a/GET".to_string(),
            bytes: b"HTTP/1.1 200 OK\r\nContent-Type:application/json\r\n\r\n{\"id\":42}".to_vec(),
        }
    );
    let reply = Reply {
        code: 200,
        reason: None,
        headers: vec![field("Content-Type", "application/json")],
        body: b"{\"id\":42}".to_vec(),
    };
    assert_eq!(next, Dispatcher::Record { reply: reply.clone() });
    let (end, last) = next.step(Event::Written);
    assert_eq!(last, Action::Respond { reply });
    assert_eq!(end, Dispatcher::Finished);
}

#[test]
fn a_tape_that_cannot_be_written_fails_the_request() {
    let reply = Reply { code: 200, reason: None, headers: vec![], body: vec![] };
    let (next, action) = Dispatcher::Record { reply }.step(Event::WriteFailed);
    assert_eq!(action, Action::Fail { error: DispatchError::Storage(StorageError::Write) });
    assert_eq!(next, Dispatcher::Finished);
}

#[test]
fn upstream_failure_ends_the_request() {
    let state = Dispatcher::Forward { file: "tapes//a/GET".to_string() };
    let (next, action) = state.step(Event::UpstreamFailed);
    assert_eq!(action, Action::Fail { error: DispatchError::UpstreamUnavailable });
    assert_eq!(next, Dispatcher::Finished);
    let (after, refused) = next.step(Event::Upstream(ok_json()));
    assert_eq!(refused, Action::Fail { error: DispatchError::UnexpectedEvent });
    assert_eq!(after, Dispatcher::Finished);
}

#[test]
fn an_event_that_was_not_asked_for_ends_the_request() {
    let asked = request("GET", "/a", vec![], b"");
    let states = vec![
        Dispatcher::Lookup { config: config(false), request: asked.clone() },
        Dispatcher::Probe { config: config(false), request: asked },
        Dispatcher::Playback,
        Dispatcher::Forward { file: "f".to_string() },
        Dispatcher::Finished,
    ];
    for state in states {
        let (next, action) = state.step(Event::Written);
        assert_eq!(action, Action::Fail { error: DispatchError::UnexpectedEvent });
        assert_eq!(next, Dispatcher::Finished);
    }
    let recording = Dispatcher::Record { reply: Reply { code: 200, reason: None, headers: vec![], body: vec![] } };
    let (next, action) = recording.step(Event::Exists(true));
    assert_eq!(action, Action::Fail { error: DispatchError::UnexpectedEvent });
    assert_eq!(next, Dispatcher::Finished);
}

#[test]
fn record_writes_the_standard_reason_where_none_came() {
    let response =
        UpstreamResponse { version: Version::H2, code: 404, reason: None, headers: vec![], body: b"gone".to_vec() };
    assert_eq!(record(&response), b"HTTP/2.0 404 Not Found\r\n\r\ngone".to_vec());
}

#[test]
fn record_writes_no_reason_where_none_came_for_a_code_without_one() {
    let response = UpstreamResponse { version: Version::Http11, code: 799, reason: None, headers: vec![], body: vec![] };
    assert_eq!(record(&response), b"HTTP/1.1 799 \r\n\r\n".to_vec());
}

#[test]
fn replay_of_a_record_is_the_answer_itself() {
    let response = UpstreamResponse {
        version: Version::Http11,
        code: 206,
        reason: None,
        headers: vec![field("content-range", "bytes 0-3/10"), field("x-empty", "")],
        body: vec![0, 13, 10, 13, 10, 255],
    };
    assert_eq!(
        replay(&record(&response)),
        Action::Respond {
            reply: Reply { code: 206, reason: None, headers: response.headers.clone(), body: response.body.clone() }
        }
    );
}

#[test]
fn replay_does_not_keep_the_recorded_reason() {
    let a = replay(b"HTTP/1.1 200 OK\r\n\r\nx");
    let b = replay(b"HTTP/1.1 200 Fine By Me\r\n\r\nx");
    assert_eq!(a, b);
}

fn fine_by_me() -> UpstreamResponse {
    UpstreamResponse {
        version: Version::Http11,
        code: 200,
        reason: Some(b"Fine By Me".to_vec()),
        headers: vec![field("Content-Type", "text/plain"), field("X-Empty", "")],
        body: b"hello".to_vec(),
    }
}

#[test]
fn record_writes_the_phrase_that_came() {
    assert_eq!(
        record(&fine_by_me()),
        b"HTTP/1.1 200 Fine By Me\r\nContent-Type:text/plain\r\nX-Empty:\r\n\r\nhello".to_vec()
    );
}

#[test]
fn record_writes_the_standard_phrase_where_the_one_that_came_breaks_the_line() {
    let mut response = fine_by_me();
    response.reason = Some(b"Fine\r\nX-Sneaked:in".to_vec());
    assert_eq!(
        record(&response),
        b"HTTP/1.1 200 OK\r\nContent-Type:text/plain\r\nX-Empty:\r\n\r\nhello".to_vec()
    );
}

#[test]
fn a_miss_records_and_passes_on_the_phrase_that_came() {
    let mut world = World::new(Some(fine_by_me()));
    let headers = vec![field("host", "proxy.test"), field("accept", "*/*")];
    let asked = request("PUT", "/greeting?lang=en", headers.clone(), b"hi");
    let reply = world.serve(config(false), asked).unwrap();
    assert_eq!(
        reply,
        Reply {
            code: 200,
            reason: Some(b"Fine By Me".to_vec()),
            headers: vec![field("Content-Type", "text/plain"), field("X-Empty", "")],
            body: b"hello".to_vec(),
        }
    );
    assert_eq!(world.files.len(), 1);
    assert_eq!(
        world.files.get("tapes//greeting?lang=en/PUT"),
        Some(
            &b"HTTP/1.1 200 Fine By Me\r\nContent-Type:text/plain\r\nX-Empty:\r\n\r\nhello"
                .to_vec()
        )
    );
    assert_eq!(
        world.forwarded,
        vec![OutboundRequest {
            method: "PUT".to_string(),
            uri: "https://upstream.test/greeting?lang=en".to_string(),
            version: Version::Http11,
            headers,
            body: b"hi".to_vec(),
        }]
    );
}

#[test]
fn a_miss_leaves_every_other_tape_as_it_was() {
    let mut world = World::new(Some(fine_by_me()));
    world.files.insert("tapes//other/GET".to_string(), b"HTTP/1.1 204 \r\n\r\n".to_vec());
    world.serve(config(false), request("GET", "/greeting", vec![], b"")).unwrap();
    assert_eq!(world.files.len(), 2);
    assert_eq!(world.files.get("tapes//other/GET"), Some(&b"HTTP/1.1 204 \r\n\r\n".to_vec()));
}

#[test]
fn replay_after_a_phrase_of_its_own_repeats_code_headers_and_body() {
    let mut world = World::new(Some(fine_by_me()));
    let first = world.serve(config(false), request("GET", "/greeting", vec![], b"")).unwrap();
    world.upstream = None;
    let second = world.serve(config(false), request("GET", "/greeting", vec![], b"")).unwrap();
    assert_eq!(first.reason, Some(b"Fine By Me".to_vec()));
    assert_eq!(second.reason, None);
    assert_eq!(second.code, first.code);
    assert_eq!(second.headers, first.headers);
    assert_eq!(second.body, first.body);
    assert_eq!(world.forwarded.len(), 1);
}

#[test]
fn failure_code_is_502_for_upstream_and_500_for_the_rest() {
    assert_eq!(failure_code(DispatchError::UpstreamUnavailable), 502);
    assert_eq!(failure_code(DispatchError::Storage(StorageError::Container)), 500);
    assert_eq!(failure_code(DispatchError::Storage(StorageError::Read)), 500);
    assert_eq!(failure_code(DispatchError::Storage(StorageError::Write)), 500);
    assert_eq!(failure_code(DispatchError::MalformedRecording(MalformedRecording::NoBoundary)), 500);
    assert_eq!(failure_code(DispatchError::MalformedRecording(MalformedRecording::StatusLine)), 500);
    assert_eq!(failure_code(DispatchError::MalformedRecording(MalformedRecording::HeaderLine)), 500);
    assert_eq!(failure_code(DispatchError::UnexpectedEvent), 500);
}
