//! What holds of every request.
//!
//! The first part is about any driver, whatever it reports: it speaks of
//! the actions that the dispatcher hands out for a run of events. The
//! second part is about a driver that does what it is told, on a tape store
//! that does not fail: it speaks of what a request is answered with and of
//! what the store holds afterwards.

use vstd::prelude::*;
use crate::codec::{headers_fit, spec_encode, HeaderView};
use crate::dispatch::{
    spec_record, spec_replay, spec_start, spec_step, tape_of, ActionView, ConfigView,
    DispatchError, DispatcherView, EventView,
};
use crate::message::{
    accept, spec_build_outbound, spec_header_value, spec_relay, OutboundRequestView, ReplyView,
    RequestView, UpstreamResponseView, NOT_IMPLEMENTED,
};
use crate::roundtrip::lemma_decode_encode;
use crate::scan::single_line;
use crate::status::{canonical_reason, lemma_chosen_reason_is_single_line, spec_reason_for};

verus! {

/// The actions that a dispatcher hands out from a state, one for each event.
#[verifier::opaque]
pub open spec fn spec_run(state: DispatcherView, events: Seq<EventView>) -> Seq<ActionView>
    decreases events.len(),
{
    if events.len() == 0 {
        Seq::empty()
    } else {
        let next = spec_step(state, events[0]);
        seq![next.1] + spec_run(next.0, events.skip(1))
    }
}

/// The actions of a whole request: the first one, then one for each event.
pub open spec fn spec_actions(config: ConfigView, request: RequestView, events: Seq<EventView>) -> Seq<
    ActionView,
> {
    let first = spec_start(config, request);
    seq![first.1] + spec_run(first.0, events)
}

/// What touches the tape store or upstream: every action but a reply, a
/// failure, and the making of the directory itself.
pub open spec fn needs_container(action: ActionView) -> bool {
    action is Exists || action is Read || action is Write || action is Forward
}

/// A run hands out one action for each event.
pub proof fn lemma_run_len(state: DispatcherView, events: Seq<EventView>)
    ensures
        spec_run(state, events).len() == events.len(),
    decreases events.len(),
{
    reveal(spec_run);
    if events.len() > 0 {
        lemma_run_len(spec_step(state, events[0]).0, events.skip(1));
    }
}

/// A request that is done stays done: every further event is refused.
pub proof fn lemma_finished_stays_finished(events: Seq<EventView>, i: int)
    requires
        0 <= i < events.len(),
    ensures
        spec_run(DispatcherView::Finished, events)[i] == (ActionView::Fail {
            error: DispatchError::UnexpectedEvent,
        }),
    decreases events.len(),
{
    reveal(spec_run);
    lemma_run_len(DispatcherView::Finished, events.skip(1));
    if i > 0 {
        lemma_finished_stays_finished(events.skip(1), i - 1);
    }
}

/// A tape is written only when upstream has answered: whatever the state
/// and whatever the events, a `Write` is the action for an `Upstream` event
/// and for no other. So a request whose upstream cannot be reached writes
/// nothing, neither when it fails nor afterwards.
pub proof fn lemma_write_needs_upstream(state: DispatcherView, events: Seq<EventView>, i: int)
    requires
        0 <= i < events.len(),
        spec_run(state, events)[i] is Write,
    ensures
        events[i] is Upstream,
    decreases events.len(),
{
    reveal(spec_run);
    let next = spec_step(state, events[0]);
    lemma_run_len(next.0, events.skip(1));
    if i > 0 {
        assert(spec_run(state, events)[i] == spec_run(next.0, events.skip(1))[i - 1]);
        lemma_write_needs_upstream(next.0, events.skip(1), i - 1);
    }
}

/// The directory comes first: nothing looks for a tape, reads one, writes
/// one or goes upstream unless the directory was reported ready before.
pub proof fn lemma_container_comes_first(
    config: ConfigView,
    request: RequestView,
    events: Seq<EventView>,
    i: int,
)
    requires
        0 <= i < spec_actions(config, request, events).len(),
        needs_container(spec_actions(config, request, events)[i]),
    ensures
        i >= 1,
        events.len() >= 1,
        events[0] is ContainerReady,
{
    reveal(spec_run);
    let started = spec_start(config, request);
    lemma_run_len(started.0, events);
    let first = spec_step(started.0, events[0]);
    lemma_run_len(first.0, events.skip(1));
    if !(events[0] is ContainerReady) {
        assert(first.0 == DispatcherView::Finished);
        if i >= 2 {
            lemma_finished_stays_finished(events.skip(1), i - 2);
        }
    }
}

/// The tape of a request depends on the tape directory, the path and the
/// method alone: two requests that agree in path and method begin alike and
/// look for the same tape, whatever their headers and bodies.
pub proof fn lemma_key_ignores_headers_and_body(
    config: ConfigView,
    first: RequestView,
    second: RequestView,
)
    requires
        first.path == second.path,
        first.method == second.method,
    ensures
        tape_of(config, first) == tape_of(config, second),
        spec_start(config, first).1 == spec_start(config, second).1,
        spec_step(spec_start(config, first).0, EventView::ContainerReady).1 == spec_step(
            spec_start(config, second).0,
            EventView::ContainerReady,
        ).1,
{
}

/// The tape holds the phrase that came. Where upstream's answer came with
/// a phrase that holds no CR LF, what is written is the version, the code
/// and that phrase on the status line, then the headers and the body of the
/// answer, whatever the standard phrase for the code is.
pub proof fn lemma_record_keeps_phrase(response: UpstreamResponseView, phrase: Seq<u8>)
    requires
        response.reason == Some(phrase),
        single_line(phrase),
    ensures
        spec_record(response) == spec_encode(
            response.version,
            response.code,
            phrase,
            response.headers,
            response.body,
        ),
{
}

/// Reading what was written for an upstream response gives a reply with the
/// response's code, headers and body, where the response's headers each fit
/// on a line. The reply names no reason: the phrase on the tape is not
/// played back.
pub proof fn lemma_replay_of_record(response: UpstreamResponseView)
    requires
        headers_fit(response.headers),
    ensures
        spec_replay(spec_record(response)) == (ActionView::Respond {
            reply: ReplyView {
                code: response.code,
                reason: None,
                headers: response.headers,
                body: response.body,
            },
        }),
{
    let reason = spec_reason_for(response.reason, response.code);
    lemma_chosen_reason_is_single_line(response.reason, canonical_reason(response.code));
    lemma_decode_encode(response.version, response.code, reason, response.headers, response.body);
}

/// A tape store: the bytes that lie under each name.
pub type Tapes = Map<Seq<char>, Seq<u8>>;

/// How a request ended for a driver that did what it was told.
pub struct Served {
    /// What the tape store holds afterwards.
    pub tapes: Tapes,
    /// The reply, or why there is none.
    pub outcome: Result<ReplyView, DispatchError>,
    /// What was sent upstream, if anything was.
    pub forwarded: Option<OutboundRequestView>,
}

/// What the last action of a request means for who asked.
pub open spec fn spec_outcome(action: ActionView) -> Result<ReplyView, DispatchError> {
    match action {
        ActionView::Respond { reply } => Ok(reply),
        ActionView::Fail { error } => Err(error),
        _ => Err(DispatchError::UnexpectedEvent),
    }
}

/// One request, served by a driver that does what each action says on a
/// tape store that does not fail: it reports the directory ready, says
/// whether the store holds the tape, hands over the tape's bytes when asked
/// to read, puts the bytes under the name when asked to write, and answers
/// a forward with what upstream gave, or with its failure where upstream
/// gave nothing.
pub open spec fn spec_serve(
    tapes: Tapes,
    config: ConfigView,
    request: RequestView,
    upstream: Option<UpstreamResponseView>,
) -> Served {
    let file = tape_of(config, request);
    let lookup = spec_start(config, request).0;
    let probe = spec_step(lookup, EventView::ContainerReady).0;
    let found = tapes.dom().contains(file);
    let probed = spec_step(probe, EventView::Exists(found));
    match probed.1 {
        ActionView::Read { file } => Served {
            tapes,
            outcome: spec_outcome(spec_step(probed.0, EventView::ReadDone(tapes[file])).1),
            forwarded: None,
        },
        ActionView::Forward { request } => match upstream {
            Some(response) => {
                let answered = spec_step(probed.0, EventView::Upstream(response));
                match answered.1 {
                    ActionView::Write { file, bytes } => Served {
                        tapes: tapes.insert(file, bytes),
                        outcome: spec_outcome(spec_step(answered.0, EventView::Written).1),
                        forwarded: Some(request),
                    },
                    other => Served { tapes, outcome: spec_outcome(other), forwarded: Some(request) },
                }
            },
            None => Served {
                tapes,
                outcome: spec_outcome(spec_step(probed.0, EventView::UpstreamFailed).1),
                forwarded: Some(request),
            },
        },
        other => Served { tapes, outcome: spec_outcome(other), forwarded: None },
    }
}

/// A request whose tape exists is answered from the tape: with what the
/// tape's bytes hold, or with the failure to read them. Nothing is sent
/// upstream, whatever the mode, and the store stays as it is.
pub proof fn lemma_hit_plays_back(
    tapes: Tapes,
    config: ConfigView,
    request: RequestView,
    upstream: Option<UpstreamResponseView>,
)
    requires
        tapes.dom().contains(tape_of(config, request)),
    ensures
        spec_serve(tapes, config, request, upstream) == (Served {
            tapes,
            outcome: spec_outcome(spec_replay(tapes[tape_of(config, request)])),
            forwarded: None,
        }),
{
}

/// In replay-only mode a request without a tape is answered with 501, its
/// standard phrase and an empty body, whatever its method and path. The reply echoes the request's
/// first `Accept` header and has no other header. Nothing is sent upstream,
/// and the store stays as it is.
pub proof fn lemma_replay_only_miss(
    tapes: Tapes,
    config: ConfigView,
    request: RequestView,
    upstream: Option<UpstreamResponseView>,
)
    requires
        config.replay_only,
        !tapes.dom().contains(tape_of(config, request)),
    ensures
        spec_serve(tapes, config, request, upstream) == (Served {
            tapes,
            outcome: Ok(
                ReplyView {
                    code: NOT_IMPLEMENTED,
                    reason: None,
                    headers: match spec_header_value(request.headers, accept()) {
                        Some(value) => seq![HeaderView { name: accept(), value }],
                        None => Seq::empty(),
                    },
                    body: Seq::empty(),
                },
            ),
            forwarded: None,
        }),
{
}

/// Where upstream cannot be reached, a request without a tape fails with
/// `UpstreamUnavailable`, and the store stays as it is: there is still no
/// tape for the request.
pub proof fn lemma_unreachable_upstream_leaves_no_tape(
    tapes: Tapes,
    config: ConfigView,
    request: RequestView,
)
    requires
        !config.replay_only,
        !tapes.dom().contains(tape_of(config, request)),
    ensures
        spec_serve(tapes, config, request, None).outcome == Err::<ReplyView, DispatchError>(
            DispatchError::UpstreamUnavailable,
        ),
        spec_serve(tapes, config, request, None).tapes == tapes,
        !spec_serve(tapes, config, request, None).tapes.dom().contains(tape_of(config, request)),
{
}

/// A request without a tape that upstream answers is sent on as it came,
/// to the upstream base followed by its path. The answer is passed on, and
/// its recording lies under the request's tape afterwards; no other tape is
/// touched.
pub proof fn lemma_miss_is_recorded(
    tapes: Tapes,
    config: ConfigView,
    request: RequestView,
    response: UpstreamResponseView,
)
    requires
        !config.replay_only,
        !tapes.dom().contains(tape_of(config, request)),
    ensures
        spec_serve(tapes, config, request, Some(response)) == (Served {
            tapes: tapes.insert(tape_of(config, request), spec_record(response)),
            outcome: Ok(spec_relay(response)),
            forwarded: Some(
                spec_build_outbound(
                    request.method,
                    request.headers,
                    request.body,
                    config.upstream,
                    request.path,
                    request.version,
                ),
            ),
        }),
{
}

/// Replay repeats the recording. Once a request without a tape has been
/// answered by upstream and recorded, every later request with the same
/// path and method, whatever its headers and its body and whatever
/// upstream would answer now, gets what the first one got: the same code,
/// the same headers in the same order, the same body. Only the reason may
/// differ: the first reply has the phrase that came from upstream, a later
/// one names none and so goes out with the standard phrase. Nothing is sent
/// upstream for the later request, and the store stays as the first request
/// left it, so the same holds of the request after it. Upstream's headers
/// must each fit on a line.
pub proof fn lemma_replay_repeats_recording(
    tapes: Tapes,
    config: ConfigView,
    first: RequestView,
    response: UpstreamResponseView,
    later: RequestView,
    upstream_now: Option<UpstreamResponseView>,
)
    requires
        !config.replay_only,
        !tapes.dom().contains(tape_of(config, first)),
        later.path == first.path,
        later.method == first.method,
        headers_fit(response.headers),
    ensures
        ({
            let recorded = spec_serve(tapes, config, first, Some(response));
            let replayed = spec_serve(recorded.tapes, config, later, upstream_now);
            &&& recorded.outcome == Ok::<ReplyView, DispatchError>(
                ReplyView {
                    code: response.code,
                    reason: response.reason,
                    headers: response.headers,
                    body: response.body,
                },
            )
            &&& replayed.outcome == Ok::<ReplyView, DispatchError>(
                ReplyView {
                    code: response.code,
                    reason: None,
                    headers: response.headers,
                    body: response.body,
                },
            )
            &&& replayed.forwarded is None
            &&& replayed.tapes == recorded.tapes
        }),
{
    let file = tape_of(config, first);
    let bytes = spec_record(response);
    let recorded = spec_serve(tapes, config, first, Some(response));
    assert(recorded.tapes == tapes.insert(file, bytes) && recorded.outcome == Ok::<
        ReplyView,
        DispatchError,
    >(spec_relay(response))) by {
        lemma_miss_is_recorded(tapes, config, first, response);
    }
    assert(spec_outcome(spec_replay(bytes)) == Ok::<ReplyView, DispatchError>(
        ReplyView {
            code: response.code,
            reason: None,
            headers: response.headers,
            body: response.body,
        },
    )) by {
        lemma_replay_of_record(response);
    }
    assert(tape_of(config, later) == file);
    assert(recorded.tapes.dom().contains(file) && recorded.tapes[file] == bytes);
    lemma_hit_plays_back(recorded.tapes, config, later, upstream_now);
}

} // verus!
