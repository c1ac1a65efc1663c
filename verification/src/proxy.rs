//! What becomes of a request: refused, passed on, or passed on with its answer watched.
use crate::chat::{ChatCompletionsChunk, ChatCompletionsChunkChoices, ChatCompletionsRequest};
use crate::config::Config;
use crate::endpoint::{address, forward, unload_call, Call, UnloadCall, CALL_TIMEOUT_SECS};
use crate::haywire::HaywireDetector;
use crate::monitor::{in_grace, may_pass};
use crate::telemetry::{
    after_responses, fresh_record, made_with, Telemetry, TelemetryRequest,
};
use crate::text::{contains, holds};
use std::sync::{Arc, RwLock};
use vstd::prelude::*;

verus! {

/// The answer to a request that is refused. Its body is a JSON object whose only member,
/// `error`, is an object with the members `message`, `type` and `code`.
pub struct Refusal {
    pub status: u16,
    pub retry_after: &'static str,
    pub message: &'static str,
    pub error_type: &'static str,
    pub code: &'static str,
}

/// What becomes of a request once the monitor has been asked.
pub enum Dispatch {
    /// Answer it without bothering the model server.
    Refuse(Refusal),
    /// Pass it on.
    Forward(Call),
}

/// Requests are refused only on the monitor's word: when the monitor fails, the proxy is
/// open.
pub open spec fn is_refused(verdict: Option<bool>) -> bool {
    verdict == Some(false)
}

/// The answer to a request that comes while the machine is under load.
pub fn refusal() -> (refusal: Refusal)
    ensures
        refusal.status == 503,
        refusal.retry_after@ == "120"@,
        refusal.message@ == "Resource load too high, try again later"@,
        refusal.error_type@ == "rate_limit_error"@,
        refusal.code@ == "resource_exhausted"@,
{
    Refusal {
        status: 503,
        retry_after: "120",
        message: "Resource load too high, try again later",
        error_type: "rate_limit_error",
        code: "resource_exhausted",
    }
}

/// Decides about a request for `uri` on the `verdict` of the monitor; there is none if
/// the monitor failed.
pub fn dispatch(config: &Config, uri: &str, verdict: Option<bool>) -> (dispatch: Dispatch)
    ensures
        dispatch is Refuse <==> is_refused(verdict),
        dispatch matches Dispatch::Refuse(refusal) ==> {
            &&& refusal.status == 503
            &&& refusal.retry_after@ == "120"@
            &&& refusal.message@ == "Resource load too high, try again later"@
            &&& refusal.error_type@ == "rate_limit_error"@
            &&& refusal.code@ == "resource_exhausted"@
        },
        dispatch matches Dispatch::Forward(call) ==> call@ == (
            address(config.target_host@, config.target_port, uri@),
            CALL_TIMEOUT_SECS,
        ),
{
    let api_allowed = match verdict {
        Some(allowed) => allowed,
        None => true,
    };
    if api_allowed {
        Dispatch::Forward(forward(config.target_host.as_str(), config.target_port, uri))
    } else {
        Dispatch::Refuse(refusal())
    }
}

/// A response with this content type is an event stream.
pub open spec fn names_event_stream(content_type: Option<&str>) -> bool {
    match content_type {
        Some(content_type) => holds(content_type@, "text/event-stream"@),
        None => false,
    }
}

/// Whether a response is an event stream, going by its content type. A response without
/// one, or with one that is no text, is not.
pub fn is_streaming(content_type: Option<&str>) -> (streaming: bool)
    ensures
        streaming == names_event_stream(content_type),
{
    match content_type {
        Some(content_type) => contains(content_type, "text/event-stream"),
        None => false,
    }
}

/// The responses that `chunks` stand for: each with its time and its choices.
pub open spec fn responses_of(chunks: Seq<ChatCompletionsChunk>) -> Seq<
    (u64, Seq<ChatCompletionsChunkChoices>),
> {
    Seq::new(chunks.len(), |i: int| (chunks[i].created, chunks[i].choices@))
}

/// A chat completion that is being watched.
pub struct Session {
    /// Its record, shared with the registry.
    pub record: Arc<RwLock<TelemetryRequest>>,
    pub haywire_detector: Option<HaywireDetector>,
    pub model_name: String,
    pub target_host: String,
    pub target_port: u16,
}

/// The number of repeats that a detector asks for, if there is a detector.
pub open spec fn repeats_in(detector: Option<HaywireDetector>) -> Option<nat> {
    match detector {
        Some(detector) => Some(detector.char_repeats as nat),
        None => None,
    }
}

impl Session {
    /// Adds `chunks` to the record, one after the other. When the record turns out to be
    /// haywire, the call that unloads the model is returned.
    pub fn absorb(&self, record: &mut TelemetryRequest, chunks: &Vec<ChatCompletionsChunk>) -> (unload:
        Option<UnloadCall>)
        ensures
            final(record)@ == after_responses(
                old(record)@,
                repeats_in(self.haywire_detector),
                responses_of(chunks@),
            ),
            unload is Some <==> !old(record)@.haywire_detected && final(record)@.haywire_detected,
            unload matches Some(call) ==> call@ == unload_call(
                self.target_host@,
                self.target_port,
                self.model_name@,
            ),
    {
        let mut unload: Option<UnloadCall> = None;
        let mut i: usize = 0;
        while i < chunks.len()
            invariant
                i <= chunks@.len(),
                record@ == after_responses(
                    old(record)@,
                    repeats_in(self.haywire_detector),
                    responses_of(chunks@).take(i as int),
                ),
                unload is Some <==> !old(record)@.haywire_detected && record@.haywire_detected,
                old(record)@.haywire_detected ==> record@.haywire_detected,
                unload matches Some(call) ==> call@ == unload_call(
                    self.target_host@,
                    self.target_port,
                    self.model_name@,
                ),
            decreases chunks.len() - i,
        {
            let chunk = &chunks[i];
            let ordered = record.process_cc_response(
                self.haywire_detector.as_ref(),
                self.model_name.as_str(),
                self.target_host.as_str(),
                self.target_port,
                chunk.created,
                chunk.choices.as_slice(),
            );
            if ordered.is_some() {
                unload = ordered;
            }
            proof {
                let grown = responses_of(chunks@).take(i + 1);
                assert(grown.drop_last() == responses_of(chunks@).take(i as int));
            }
            i += 1;
        }
        assert(responses_of(chunks@).take(chunks@.len() as int) == responses_of(chunks@));
        unload
    }
}

/// How the answer of the model server is passed back.
pub enum Relay {
    /// As it is.
    PassThrough,
    /// Piece by piece, while its events are read.
    Events(Session),
    /// As one whole, after it has been read.
    Whole(Session),
}

/// Decides how an answer is passed back. The answer to a chat completion `request` is
/// watched, and a record is filed for it; other answers pass through.
pub fn relay(
    config: &Config,
    telemetry: &mut Telemetry,
    request: Option<ChatCompletionsRequest>,
    content_type: Option<&str>,
    now: u64,
) -> (relay: Relay)
    requires
        request is Some ==> old(telemetry).next_id < u64::MAX,
    ensures
        relay is PassThrough <==> request is None,
        relay is Events <==> request is Some && names_event_stream(content_type),
        request is None ==> *final(telemetry) == *old(telemetry),
        request matches Some(request) ==> final(telemetry).next_id == old(telemetry).next_id + 1,
        old(telemetry).wf() ==> final(telemetry).wf(),
        match relay {
            Relay::PassThrough => true,
            Relay::Events(session) | Relay::Whole(session) => {
                &&& made_with(*session.record)@ == fresh_record(request->0, now)
                &&& final(telemetry).requests@ == old(telemetry).requests@.insert(
                    old(telemetry).next_id,
                    session.record,
                )
                &&& repeats_in(session.haywire_detector) == if config.haywire_detection_enabled {
                    Some(config.haywire_char_repeats as nat)
                } else {
                    None
                }
                &&& session.model_name@ == (request->0).model@
                &&& session.target_host@ == config.target_host@
                &&& session.target_port == config.target_port
            },
        },
{
    match request {
        None => Relay::PassThrough,
        Some(request) => {
            let streaming = is_streaming(content_type);
            let haywire_detector = config.haywire_detector();
            let model_name = request.model.clone();
            let record = telemetry.new_request(request, now);
            let session = Session {
                record,
                haywire_detector,
                model_name,
                target_host: config.target_host.clone(),
                target_port: config.target_port,
            };
            if streaming {
                Relay::Events(session)
            } else {
                Relay::Whole(session)
            }
        },
    }
}

/// A request is refused exactly when the monitor could be asked, one of the load averages
/// has reached its threshold, and no model was loaded within the grace period.
pub proof fn law_what_is_refused(
    asked: bool,
    cpu_below: bool,
    gpu_below: bool,
    last_model_loaded: Option<u64>,
    grace: u64,
    now: u64,
)
    ensures
        is_refused(
            if asked {
                Some(may_pass(cpu_below, gpu_below, last_model_loaded, grace, now))
            } else {
                None
            },
        ) <==> asked && !(cpu_below && gpu_below) && !in_grace(last_model_loaded, grace, now),
{
}

/// When the monitor fails, the proxy is open.
pub proof fn law_proxy_fails_open()
    ensures
        !is_refused(None),
{
}

/// Only the monitor's word that a request may not pass has it refused.
pub proof fn law_only_a_no_refuses()
    ensures
        is_refused(Some(false)),
        !is_refused(Some(true)),
        !is_refused(None),
{
}

/// A request passes under low load, and under any load until the grace period since a model
/// was last seen loaded is over, to the nanosecond; otherwise it is refused.
pub proof fn law_load_and_grace_decide(
    cpu_below: bool,
    gpu_below: bool,
    last_model_loaded: Option<u64>,
    grace: u64,
    now: u64,
)
    ensures
        is_refused(
            Some(may_pass(cpu_below, gpu_below, last_model_loaded, grace, now)),
        ) <==> !(cpu_below && gpu_below) && !(last_model_loaded is Some && grace > 0 && now
            - last_model_loaded->0 < grace * 1_000_000_000),
{
}

/// A response is an event stream if its content type says so anywhere, and only then.
pub proof fn law_event_stream_is_named(content_type: &str, before: Seq<char>, after: Seq<char>)
    ensures
        content_type@ == before + "text/event-stream"@ + after ==> names_event_stream(
            Some(content_type),
        ),
        names_event_stream(Some(content_type)) ==> exists|first: Seq<char>, last: Seq<char>|
            content_type@ == #[trigger] (first + "text/event-stream"@ + last),
        !names_event_stream(None),
{
    crate::text::law_middle_is_held(before, "text/event-stream"@, after);
    if names_event_stream(Some(content_type)) {
        let (first, last) = crate::text::law_held_text_parts_the_rest(
            content_type@,
            "text/event-stream"@,
        );
        assert(content_type@ == first + "text/event-stream"@ + last);
    }
}

/// Chunks are taken one by one, each with its time and all its choices.
pub proof fn law_chunks_are_taken_one_by_one(chunks: Seq<ChatCompletionsChunk>, at: int)
    ensures
        responses_of(chunks).len() == chunks.len(),
        0 <= at < chunks.len() ==> responses_of(chunks)[at].0 == chunks[at].created,
        0 <= at < chunks.len() ==> responses_of(chunks)[at].1 == chunks[at].choices@,
{
}

/// A session asks for the repeats of its detector, and for none without one.
pub proof fn law_session_asks_for_its_number(detector: HaywireDetector)
    ensures
        repeats_in(Some(detector)) == Some(detector.char_repeats as nat),
        repeats_in(None) is None,
{
}

} // verus!
