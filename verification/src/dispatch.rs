//! The dispatcher: what the proxy does with one request.
//!
//! The dispatcher decides and never acts. It hands its driver one action at
//! a time: make a directory, look for a tape, read it, send a request
//! upstream, write a tape, send a reply, or give up. The driver does what
//! the action says and reports the outcome as an event; the dispatcher
//! answers with the next action. A request runs
//!
//! ```text
//! Lookup -> Probe -> Playback -> reply
//!                 -> reply 501               (no tape, replay-only)
//!                 -> Forward -> Record -> reply
//! ```
//!
//! and ends at the first failure. A tape is written in one place only: when
//! upstream has answered.

use vstd::prelude::*;
use crate::codec::{decode, encode, spec_decode, spec_encode, MalformedRecording};
use crate::key::{container_name, recording_name, spec_container_name, spec_recording_name};
use crate::message::{
    build_outbound, not_implemented, playback, relay, spec_build_outbound, spec_not_implemented,
    spec_playback, spec_relay, OutboundRequest, OutboundRequestView, Reply, ReplyView, Request,
    RequestView, UpstreamResponse, UpstreamResponseView,
};
use crate::status::{reason_for, spec_reason_for};

verus! {

/// The code for a failure of the proxy itself.
pub const INTERNAL_SERVER_ERROR: u16 = 500;

/// The code for a failure to reach upstream.
pub const BAD_GATEWAY: u16 = 502;

/// How the proxy is set up. It is made once and never changed; each request
/// gets a copy.
#[derive(Clone, Debug, PartialEq, Eq)]
pub struct Config {
    /// The address to listen on, as text.
    pub bind: String,
    /// The port to listen on.
    pub port: u16,
    /// The base of every upstream URI.
    pub upstream: String,
    /// The directory below which the tapes lie.
    pub tapes: String,
    /// Whether a request without a tape is refused rather than forwarded.
    pub replay_only: bool,
}

/// What a configuration is.
pub struct ConfigView {
    pub bind: Seq<char>,
    pub port: u16,
    pub upstream: Seq<char>,
    pub tapes: Seq<char>,
    pub replay_only: bool,
}

impl View for Config {
    type V = ConfigView;

    open spec fn view(&self) -> ConfigView {
        ConfigView {
            bind: self.bind@,
            port: self.port,
            upstream: self.upstream@,
            tapes: self.tapes@,
            replay_only: self.replay_only,
        }
    }
}

/// What failed in the tape store.
#[derive(Clone, Copy, Debug, PartialEq, Eq)]
pub enum StorageError {
    /// The directory for the tape could not be made.
    Container,
    /// The tape could not be read.
    Read,
    /// The tape could not be written.
    Write,
}

/// Why a request got no reply.
#[derive(Clone, Copy, Debug, PartialEq, Eq)]
pub enum DispatchError {
    /// The tape store failed.
    Storage(StorageError),
    /// There is a tape, and it cannot be read as a recording.
    MalformedRecording(MalformedRecording),
    /// Upstream could not be reached or did not answer.
    UpstreamUnavailable,
    /// The driver reported something that the dispatcher had not asked for.
    UnexpectedEvent,
}

/// What the driver reports.
#[derive(Clone, Debug, PartialEq, Eq)]
pub enum Event {
    /// The directory exists now.
    ContainerReady,
    /// The directory could not be made.
    ContainerFailed,
    /// Whether there is a tape.
    Exists(bool),
    /// The tape's bytes.
    ReadDone(Vec<u8>),
    /// The tape could not be read.
    ReadFailed,
    /// What upstream answered.
    Upstream(UpstreamResponse),
    /// Upstream could not be reached, or gave no answer in time.
    UpstreamFailed,
    /// The tape is written.
    Written,
    /// The tape could not be written.
    WriteFailed,
}

/// What an event is.
pub enum EventView {
    ContainerReady,
    ContainerFailed,
    Exists(bool),
    ReadDone(Seq<u8>),
    ReadFailed,
    Upstream(UpstreamResponseView),
    UpstreamFailed,
    Written,
    WriteFailed,
}

impl View for Event {
    type V = EventView;

    open spec fn view(&self) -> EventView {
        match self {
            Event::ContainerReady => EventView::ContainerReady,
            Event::ContainerFailed => EventView::ContainerFailed,
            Event::Exists(found) => EventView::Exists(*found),
            Event::ReadDone(bytes) => EventView::ReadDone(bytes@),
            Event::ReadFailed => EventView::ReadFailed,
            Event::Upstream(response) => EventView::Upstream(response@),
            Event::UpstreamFailed => EventView::UpstreamFailed,
            Event::Written => EventView::Written,
            Event::WriteFailed => EventView::WriteFailed,
        }
    }
}

/// What the driver is to do next.
#[derive(Clone, Debug, PartialEq, Eq)]
pub enum Action {
    /// Make the directory and all that lies above it; answer with
    /// `ContainerReady` or `ContainerFailed`.
    EnsureContainer { dir: String },
    /// Look whether the file is there; answer with `Exists`.
    Exists { file: String },
    /// Read the file; answer with `ReadDone` or `ReadFailed`.
    Read { file: String },
    /// Send the request upstream; answer with `Upstream` or `UpstreamFailed`.
    Forward { request: OutboundRequest },
    /// Write the bytes to the file, in place of what it held; answer with
    /// `Written` or `WriteFailed`.
    Write { file: String, bytes: Vec<u8> },
    /// Send the reply. The request is done.
    Respond { reply: Reply },
    /// Fail the request. It is done.
    Fail { error: DispatchError },
}

/// What an action is.
pub enum ActionView {
    EnsureContainer { dir: Seq<char> },
    Exists { file: Seq<char> },
    Read { file: Seq<char> },
    Forward { request: OutboundRequestView },
    Write { file: Seq<char>, bytes: Seq<u8> },
    Respond { reply: ReplyView },
    Fail { error: DispatchError },
}

impl View for Action {
    type V = ActionView;

    open spec fn view(&self) -> ActionView {
        match self {
            Action::EnsureContainer { dir } => ActionView::EnsureContainer { dir: dir@ },
            Action::Exists { file } => ActionView::Exists { file: file@ },
            Action::Read { file } => ActionView::Read { file: file@ },
            Action::Forward { request } => ActionView::Forward { request: request@ },
            Action::Write { file, bytes } => ActionView::Write { file: file@, bytes: bytes@ },
            Action::Respond { reply } => ActionView::Respond { reply: reply@ },
            Action::Fail { error } => ActionView::Fail { error: *error },
        }
    }
}

/// Where a request stands.
#[derive(Clone, Debug, PartialEq, Eq)]
pub enum Dispatcher {
    /// The directory for the tape is being made.
    Lookup { config: Config, request: Request },
    /// The tape is being looked for.
    Probe { config: Config, request: Request },
    /// The tape is being read.
    Playback,
    /// The request is with upstream; `file` is where the answer will go.
    Forward { file: String },
    /// The tape is being written; `reply` is what upstream answered.
    Record { reply: Reply },
    /// The request is done.
    Finished,
}

/// What a dispatcher's state is.
pub enum DispatcherView {
    Lookup { config: ConfigView, request: RequestView },
    Probe { config: ConfigView, request: RequestView },
    Playback,
    Forward { file: Seq<char> },
    Record { reply: ReplyView },
    Finished,
}

impl View for Dispatcher {
    type V = DispatcherView;

    open spec fn view(&self) -> DispatcherView {
        match self {
            Dispatcher::Lookup { config, request } => DispatcherView::Lookup {
                config: config@,
                request: request@,
            },
            Dispatcher::Probe { config, request } => DispatcherView::Probe {
                config: config@,
                request: request@,
            },
            Dispatcher::Playback => DispatcherView::Playback,
            Dispatcher::Forward { file } => DispatcherView::Forward { file: file@ },
            Dispatcher::Record { reply } => DispatcherView::Record { reply: reply@ },
            Dispatcher::Finished => DispatcherView::Finished,
        }
    }
}

/// The tape of a request.
pub open spec fn tape_of(config: ConfigView, request: RequestView) -> Seq<char> {
    spec_recording_name(config.tapes, request.path, request.method)
}

/// The bytes that are written for an upstream response: the recording of
/// its version, its code, its reason, its headers and its body. The reason
/// is the phrase that came with the response; where none came, or where the
/// one that came holds a CR LF, it is the standard phrase for the code.
pub open spec fn spec_record(response: UpstreamResponseView) -> Seq<u8> {
    spec_encode(
        response.version,
        response.code,
        spec_reason_for(response.reason, response.code),
        response.headers,
        response.body,
    )
}

/// The status code that tells who asked that a request failed: 502 where
/// upstream could not be reached, 500 for every failure of the proxy's own.
pub open spec fn spec_failure_code(error: DispatchError) -> u16 {
    match error {
        DispatchError::UpstreamUnavailable => BAD_GATEWAY,
        _ => INTERNAL_SERVER_ERROR,
    }
}

/// How a request begins: the directory of its path is to be made.
pub open spec fn spec_start(config: ConfigView, request: RequestView) -> (
    DispatcherView,
    ActionView,
) {
    (
        DispatcherView::Lookup { config, request },
        ActionView::EnsureContainer { dir: spec_container_name(config.tapes, request.path) },
    )
}

/// How a request that stands at a tape's existence check goes on.
pub open spec fn spec_probe(config: ConfigView, request: RequestView, found: bool) -> (
    DispatcherView,
    ActionView,
) {
    if found {
        (DispatcherView::Playback, ActionView::Read { file: tape_of(config, request) })
    } else if config.replay_only {
        (
            DispatcherView::Finished,
            ActionView::Respond { reply: spec_not_implemented(request.headers) },
        )
    } else {
        (
            DispatcherView::Forward { file: tape_of(config, request) },
            ActionView::Forward {
                request: spec_build_outbound(
                    request.method,
                    request.headers,
                    request.body,
                    config.upstream,
                    request.path,
                    request.version,
                ),
            },
        )
    }
}

/// What a tape's bytes lead to: the reply they hold, or the failure to read
/// them.
pub open spec fn spec_replay(bytes: Seq<u8>) -> ActionView {
    match spec_decode(bytes) {
        Ok(decoded) => ActionView::Respond { reply: spec_playback(decoded) },
        Err(e) => ActionView::Fail { error: DispatchError::MalformedRecording(e) },
    }
}

/// How a request goes on: the state after an event, and what is to be done.
pub open spec fn spec_step(state: DispatcherView, event: EventView) -> (
    DispatcherView,
    ActionView,
) {
    match state {
        DispatcherView::Lookup { config, request } => match event {
            EventView::ContainerReady => (
                DispatcherView::Probe { config, request },
                ActionView::Exists { file: tape_of(config, request) },
            ),
            EventView::ContainerFailed => spec_fail(
                DispatchError::Storage(StorageError::Container),
            ),
            _ => spec_fail(DispatchError::UnexpectedEvent),
        },
        DispatcherView::Probe { config, request } => match event {
            EventView::Exists(found) => spec_probe(config, request, found),
            _ => spec_fail(DispatchError::UnexpectedEvent),
        },
        DispatcherView::Playback => match event {
            EventView::ReadDone(bytes) => (DispatcherView::Finished, spec_replay(bytes)),
            EventView::ReadFailed => spec_fail(DispatchError::Storage(StorageError::Read)),
            _ => spec_fail(DispatchError::UnexpectedEvent),
        },
        DispatcherView::Forward { file } => match event {
            EventView::Upstream(response) => (
                DispatcherView::Record { reply: spec_relay(response) },
                ActionView::Write { file, bytes: spec_record(response) },
            ),
            EventView::UpstreamFailed => spec_fail(DispatchError::UpstreamUnavailable),
            _ => spec_fail(DispatchError::UnexpectedEvent),
        },
        DispatcherView::Record { reply } => match event {
            EventView::Written => (DispatcherView::Finished, ActionView::Respond { reply }),
            EventView::WriteFailed => spec_fail(DispatchError::Storage(StorageError::Write)),
            _ => spec_fail(DispatchError::UnexpectedEvent),
        },
        DispatcherView::Finished => spec_fail(DispatchError::UnexpectedEvent),
    }
}

/// The end of a request that fails.
pub open spec fn spec_fail(error: DispatchError) -> (DispatcherView, ActionView) {
    (DispatcherView::Finished, ActionView::Fail { error })
}

/// Ends a request with a failure.
fn fail(error: DispatchError) -> (next: (Dispatcher, Action))
    ensures
        (next.0@, next.1@) == spec_fail(error),
{
    (Dispatcher::Finished, Action::Fail { error })
}

/// Writes the recording of an upstream response.
pub fn record(response: &UpstreamResponse) -> (bytes: Vec<u8>)
    ensures
        bytes@ == spec_record(response@),
{
    let given: Option<&[u8]> = match &response.reason {
        Some(p) => Some(p.as_slice()),
        None => None,
    };
    let reason = reason_for(given, response.code);
    encode(
        response.version,
        response.code,
        reason.as_slice(),
        response.headers.as_slice(),
        response.body.as_slice(),
    )
}

/// The status code to answer a failed request with. It is always one of
/// the 5xx class.
pub fn failure_code(error: DispatchError) -> (code: u16)
    ensures
        code == spec_failure_code(error),
        500 <= code < 600,
{
    match error {
        DispatchError::UpstreamUnavailable => BAD_GATEWAY,
        _ => INTERNAL_SERVER_ERROR,
    }
}

/// Reads a tape's bytes and makes the reply that they hold.
pub fn replay(bytes: &[u8]) -> (action: Action)
    ensures
        action@ == spec_replay(bytes@),
{
    match decode(bytes) {
        Ok(decoded) => Action::Respond { reply: playback(decoded) },
        Err(e) => Action::Fail { error: DispatchError::MalformedRecording(e) },
    }
}

/// Goes on from a tape's existence check.
fn probe(config: Config, request: Request, found: bool) -> (next: (Dispatcher, Action))
    ensures
        (next.0@, next.1@) == spec_probe(config@, request@, found),
{
    if found {
        let file = recording_name(
            config.tapes.as_str(),
            request.path.as_str(),
            request.method.as_str(),
        );
        (Dispatcher::Playback, Action::Read { file })
    } else if config.replay_only {
        let reply = not_implemented(request.headers.as_slice());
        (Dispatcher::Finished, Action::Respond { reply })
    } else {
        let file = recording_name(
            config.tapes.as_str(),
            request.path.as_str(),
            request.method.as_str(),
        );
        let Request { method, path, version, headers, body } = request;
        let outbound = build_outbound(
            method,
            headers,
            body,
            config.upstream.as_str(),
            path.as_str(),
            version,
        );
        (Dispatcher::Forward { file }, Action::Forward { request: outbound })
    }
}

impl Dispatcher {
    /// Takes up a request. The first thing to do is to make the directory
    /// that holds the tapes of the request's path.
    pub fn start(config: Config, request: Request) -> (next: (Dispatcher, Action))
        ensures
            (next.0@, next.1@) == spec_start(config@, request@),
    {
        let dir = container_name(config.tapes.as_str(), request.path.as_str());
        (Dispatcher::Lookup { config, request }, Action::EnsureContainer { dir })
    }

    /// Whether the request is done: a reply or a failure has been handed out.
    pub fn is_finished(&self) -> (done: bool)
        ensures
            done == (self@ is Finished),
    {
        match self {
            Dispatcher::Finished => true,
            _ => false,
        }
    }

    /// Goes on after an event: gives the next state and the next action.
    ///
    /// An event that does not answer the action last handed out ends the
    /// request with `UnexpectedEvent`; so does any event after the end.
    pub fn step(self, event: Event) -> (next: (Dispatcher, Action))
        ensures
            (next.0@, next.1@) == spec_step(self@, event@),
    {
        match self {
            Dispatcher::Lookup { config, request } => match event {
                Event::ContainerReady => {
                    let file = recording_name(
                        config.tapes.as_str(),
                        request.path.as_str(),
                        request.method.as_str(),
                    );
                    (Dispatcher::Probe { config, request }, Action::Exists { file })
                },
                Event::ContainerFailed => fail(DispatchError::Storage(StorageError::Container)),
                _ => fail(DispatchError::UnexpectedEvent),
            },
            Dispatcher::Probe { config, request } => match event {
                Event::Exists(found) => probe(config, request, found),
                _ => fail(DispatchError::UnexpectedEvent),
            },
            Dispatcher::Playback => match event {
                Event::ReadDone(bytes) => (Dispatcher::Finished, replay(bytes.as_slice())),
                Event::ReadFailed => fail(DispatchError::Storage(StorageError::Read)),
                _ => fail(DispatchError::UnexpectedEvent),
            },
            Dispatcher::Forward { file } => match event {
                Event::Upstream(response) => {
                    let bytes = record(&response);
                    (Dispatcher::Record { reply: relay(response) }, Action::Write { file, bytes })
                },
                Event::UpstreamFailed => fail(DispatchError::UpstreamUnavailable),
                _ => fail(DispatchError::UnexpectedEvent),
            },
            Dispatcher::Record { reply } => match event {
                Event::Written => (Dispatcher::Finished, Action::Respond { reply }),
                Event::WriteFailed => fail(DispatchError::Storage(StorageError::Write)),
                _ => fail(DispatchError::UnexpectedEvent),
            },
            Dispatcher::Finished => fail(DispatchError::UnexpectedEvent),
        }
    }
}

} // verus!
