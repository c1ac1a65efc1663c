//! A record of every chat completion that passes through the proxy.
use crate::chat::{
    content_of, reasoning_of, ChatCompletionsChunkChoices, ChatCompletionsChunkDelta,
    ChatCompletionsMessage, ChatCompletionsRequest,
};
use crate::endpoint::{unload_call, unload_model, UnloadCall};
use crate::haywire::{is_haywire, HaywireDetector};
use std::collections::HashMap;
use std::sync::{Arc, RwLock};
use vstd::prelude::*;

verus! {

/// How long a record is kept after the last sign of its request, in seconds.
pub const MAX_AGE_SECS: u64 = 3600;

/// `std::sync::RwLock`, through which the handler of a request and the registry share
/// its record.
#[verifier::external_type_specification]
#[verifier::external_body]
#[verifier::reject_recursive_types(T)]
pub struct ExRwLock<T: ?Sized>(std::sync::RwLock<T>);

/// The record that `lock` was made with. What it holds later depends on its users.
pub uninterp spec fn made_with(lock: RwLock<TelemetryRequest>) -> TelemetryRequest;

/// `RwLock::new` makes a lock that holds the value it is given.
#[verifier::external_body]
fn share(record: TelemetryRequest) -> (lock: RwLock<TelemetryRequest>)
    ensures
        made_with(lock) == record,
{
    RwLock::new(record)
}

/// At some time a read of `lock` found a record that bore the time `timestamp`. One lock
/// may have borne several times, one after the other.
pub uninterp spec fn bore(lock: RwLock<TelemetryRequest>, timestamp: u64) -> bool;

/// `RwLock::read` gives access to the record as its users have left it: the time is one that
/// the record bore, and nothing is promised of which. Where a user failed while writing,
/// `PoisonError::into_inner` gives the same access, to the record as that user left it. A
/// thread that holds the lock for writing must not read it: `read` may then panic or block.
#[verifier::external_body]
fn timestamp_of(lock: &RwLock<TelemetryRequest>) -> (timestamp: u64)
    ensures
        bore(*lock, timestamp),
{
    match lock.read() {
        Ok(record) => record.timestamp,
        Err(poisoned) => poisoned.into_inner().timestamp,
    }
}

/// What is known of one chat completion.
#[derive(Clone)]
pub struct TelemetryRequest {
    pub cc_request: ChatCompletionsRequest,
    pub reasoning: String,
    pub content: String,
    pub timestamp: u64,
    pub haywire_detected: bool,
}

/// What a [`TelemetryRequest`] says.
pub struct RecordView {
    pub cc_request: ChatCompletionsRequest,
    pub reasoning: Seq<char>,
    pub content: Seq<char>,
    pub timestamp: u64,
    pub haywire_detected: bool,
}

impl View for TelemetryRequest {
    type V = RecordView;

    open spec fn view(&self) -> RecordView {
        RecordView {
            cc_request: self.cc_request,
            reasoning: self.reasoning@,
            content: self.content@,
            timestamp: self.timestamp,
            haywire_detected: self.haywire_detected,
        }
    }
}

/// The record of a request that has just come in, with nothing answered yet.
pub open spec fn fresh_record(cc_request: ChatCompletionsRequest, now: u64) -> RecordView {
    RecordView {
        cc_request,
        reasoning: Seq::empty(),
        content: Seq::empty(),
        timestamp: now,
        haywire_detected: false,
    }
}

/// The number of repeats that a detector asks for, if there is a detector.
pub open spec fn repeats_of(detector: Option<&HaywireDetector>) -> Option<nat> {
    match detector {
        Some(detector) => Some(detector.char_repeats as nat),
        None => None,
    }
}

/// One of the two texts is haywire, for a detector that asks for `repeats`.
pub open spec fn shows_haywire(repeats: Option<nat>, content: Seq<char>, reasoning: Seq<char>) -> bool {
    match repeats {
        Some(repeats) => is_haywire(content, repeats) || is_haywire(reasoning, repeats),
        None => false,
    }
}

impl RecordView {
    /// The record after a response: its texts have grown by those of `choices`, it bears
    /// the time of the response, and it is marked once one of its texts is haywire.
    pub open spec fn after_response(
        self,
        repeats: Option<nat>,
        created: u64,
        choices: Seq<ChatCompletionsChunkChoices>,
    ) -> RecordView {
        let reasoning = self.reasoning + reasoning_of(choices);
        let content = self.content + content_of(choices);
        RecordView {
            cc_request: self.cc_request,
            reasoning,
            content,
            timestamp: created,
            haywire_detected: self.haywire_detected || shows_haywire(repeats, content, reasoning),
        }
    }

    /// The response is the one that marks the record.
    pub open spec fn marked_by(
        self,
        repeats: Option<nat>,
        choices: Seq<ChatCompletionsChunkChoices>,
    ) -> bool {
        !self.haywire_detected && self.after_response(repeats, 0, choices).haywire_detected
    }
}

impl TelemetryRequest {
    /// The record of a request that comes in at the time `now`.
    pub fn begin(cc_request: ChatCompletionsRequest, now: u64) -> (record: Self)
        ensures
            record@ == fresh_record(cc_request, now),
    {
        Self {
            cc_request,
            reasoning: String::new(),
            content: String::new(),
            timestamp: now,
            haywire_detected: false,
        }
    }

    /// Adds the response with these `choices`, whole or a chunk, to the record. When it
    /// turns out to be haywire, the call that unloads the model is returned, once.
    pub fn process_cc_response(
        &mut self,
        haywire_detector: Option<&HaywireDetector>,
        model_name: &str,
        target_host: &str,
        target_port: u16,
        created: u64,
        choices: &[ChatCompletionsChunkChoices],
    ) -> (unload: Option<UnloadCall>)
        ensures
            final(self)@ == old(self)@.after_response(
                repeats_of(haywire_detector),
                created,
                choices@,
            ),
            unload is Some <==> old(self)@.marked_by(repeats_of(haywire_detector), choices@),
            unload matches Some(call) ==> call@ == unload_call(
                target_host@,
                target_port,
                model_name@,
            ),
    {
        self.timestamp = created;
        let mut i: usize = 0;
        assert(choices@.take(0) == Seq::<ChatCompletionsChunkChoices>::empty());
        while i < choices.len()
            invariant
                i <= choices@.len(),
                self.cc_request == old(self).cc_request,
                self.timestamp == created,
                self.haywire_detected == old(self).haywire_detected,
                self.reasoning@ == old(self).reasoning@ + reasoning_of(choices@.take(i as int)),
                self.content@ == old(self).content@ + content_of(choices@.take(i as int)),
            decreases choices.len() - i,
        {
            let choice = &choices[i];
            if let Some(delta) = &choice.delta {
                if let Some(reasoning) = &delta.reasoning_content {
                    self.reasoning.append(reasoning.as_str());
                }
                if let Some(content) = &delta.content {
                    self.content.append(content.as_str());
                }
            }
            if let Some(message) = &choice.message {
                if let Some(content) = &message.content {
                    self.content.append(content.as_str());
                }
            }
            proof {
                let grown = choices@.take(i + 1);
                assert(grown.drop_last() == choices@.take(i as int));
                assert(grown.last() == choice);
            }
            i += 1;
        }
        assert(choices@.take(choices@.len() as int) == choices@);
        if let Some(detector) = haywire_detector {
            if !self.haywire_detected && (detector.check_haywire(self.content.as_str())
                || detector.check_haywire(self.reasoning.as_str())) {
                self.haywire_detected = true;
                return Some(unload_model(target_host, target_port, model_name));
            }
        }
        None
    }
}

/// The record after `responses`, one after the other, each with its time and choices.
pub open spec fn after_responses(
    record: RecordView,
    repeats: Option<nat>,
    responses: Seq<(u64, Seq<ChatCompletionsChunkChoices>)>,
) -> RecordView
    decreases responses.len(),
{
    if responses.len() == 0 {
        record
    } else {
        let (created, choices) = responses.last();
        after_responses(record, repeats, responses.drop_last()).after_response(
            repeats,
            created,
            choices,
        )
    }
}

/// The response at position `at` of `responses` is the one that marks the record.
pub open spec fn marks_at(
    record: RecordView,
    repeats: Option<nat>,
    responses: Seq<(u64, Seq<ChatCompletionsChunkChoices>)>,
    at: int,
) -> bool {
    after_responses(record, repeats, responses.take(at)).marked_by(repeats, responses[at].1)
}

/// A record that is marked stays marked.
proof fn lemma_marks_stay(
    record: RecordView,
    repeats: Option<nat>,
    responses: Seq<(u64, Seq<ChatCompletionsChunkChoices>)>,
    early: int,
    late: int,
)
    requires
        0 <= early <= late <= responses.len(),
        after_responses(record, repeats, responses.take(early)).haywire_detected,
    ensures
        after_responses(record, repeats, responses.take(late)).haywire_detected,
    decreases late - early,
{
    if early < late {
        lemma_marks_stay(record, repeats, responses, early, late - 1);
        assert(responses.take(late).drop_last() == responses.take(late - 1));
    }
}

/// However many responses a record takes, at most one of them has the model unloaded.
pub proof fn law_unloads_at_most_once(
    record: RecordView,
    repeats: Option<nat>,
    responses: Seq<(u64, Seq<ChatCompletionsChunkChoices>)>,
    first: int,
    second: int,
)
    requires
        0 <= first < responses.len(),
        0 <= second < responses.len(),
        marks_at(record, repeats, responses, first),
        marks_at(record, repeats, responses, second),
    ensures
        first == second,
{
    let (early, late) = if first <= second {
        (first, second)
    } else {
        (second, first)
    };
    if early < late {
        assert(responses.take(early + 1).drop_last() == responses.take(early));
        lemma_marks_stay(record, repeats, responses, early + 1, late);
    }
}

/// A marked record never has its model unloaded again.
pub proof fn law_marked_record_orders_nothing(
    record: RecordView,
    repeats: Option<nat>,
    choices: Seq<ChatCompletionsChunkChoices>,
)
    requires
        record.haywire_detected,
    ensures
        !record.marked_by(repeats, choices),
{
}

/// Without a detector a record is never marked.
pub proof fn law_no_detector_no_mark(
    record: RecordView,
    responses: Seq<(u64, Seq<ChatCompletionsChunkChoices>)>,
)
    requires
        !record.haywire_detected,
    ensures
        !after_responses(record, None, responses).haywire_detected,
    decreases responses.len(),
{
    if responses.len() > 0 {
        law_no_detector_no_mark(record, responses.drop_last());
    }
}

/// It makes no difference how a response is cut into chunks: two chunks leave the record
/// as one that holds the choices of both, with the time of the second.
pub proof fn law_chunks_add_up(
    record: RecordView,
    repeats: Option<nat>,
    earlier: u64,
    first: Seq<ChatCompletionsChunkChoices>,
    created: u64,
    second: Seq<ChatCompletionsChunkChoices>,
)
    ensures
        record.after_response(repeats, earlier, first).after_response(repeats, created, second)
            == record.after_response(repeats, created, first + second),
{
    crate::chat::law_texts_of_joined_choices(first, second);
    let halfway = record.after_response(repeats, earlier, first);
    let parts = halfway.after_response(repeats, created, second);
    let whole = record.after_response(repeats, created, first + second);
    assert(parts.content == whole.content);
    assert(parts.reasoning == whole.reasoning);
    if let Some(repeats) = repeats {
        let none = Seq::<char>::empty();
        if is_haywire(halfway.content, repeats) {
            crate::haywire::law_haywire_survives_more_text(
                none,
                halfway.content,
                content_of(second),
                repeats,
            );
            assert(none + halfway.content + content_of(second) == parts.content);
        }
        if is_haywire(halfway.reasoning, repeats) {
            crate::haywire::law_haywire_survives_more_text(
                none,
                halfway.reasoning,
                reasoning_of(second),
                repeats,
            );
            assert(none + halfway.reasoning + reasoning_of(second) == parts.reasoning);
        }
    }
}

/// A record that bears the time `timestamp` is too old at the time `now`. One that bears
/// a later time is not.
pub open spec fn is_expired(now: u64, timestamp: u64) -> bool {
    now - timestamp > MAX_AGE_SECS
}

/// The `stamps`, pairs of a request's number and the time its record bears, show the
/// record with the number `id` to be too old.
pub open spec fn shown_expired(stamps: Seq<(u64, u64)>, now: u64, id: u64) -> bool {
    exists|i: int|
        0 <= i < stamps.len() && (#[trigger] stamps[i]).0 == id && is_expired(now, stamps[i].1)
}

/// The records that are left when those are gone that `stamps` shows to be too old.
pub open spec fn without_expired(
    requests: Map<u64, Arc<RwLock<TelemetryRequest>>>,
    stamps: Seq<(u64, u64)>,
    now: u64,
) -> Map<u64, Arc<RwLock<TelemetryRequest>>> {
    requests.remove_keys(Set::new(|id: u64| shown_expired(stamps, now, id)))
}

/// The `stamps` give one time for each of `requests`, and none for anything else.
pub open spec fn stamps_cover(
    requests: Map<u64, Arc<RwLock<TelemetryRequest>>>,
    stamps: Seq<(u64, u64)>,
) -> bool {
    &&& forall|i: int| 0 <= i < stamps.len() ==> requests.contains_key((#[trigger] stamps[i]).0)
    &&& forall|i: int, j: int|
        0 <= i < j < stamps.len() ==> (#[trigger] stamps[i]).0 != (#[trigger] stamps[j]).0
    &&& forall|id: u64| #[trigger]
        requests.contains_key(id) ==> exists|i: int|
            0 <= i < stamps.len() && (#[trigger] stamps[i]).0 == id
}

/// Each of the `stamps` is a time that the record with its number bore.
pub open spec fn stamps_borne(
    requests: Map<u64, Arc<RwLock<TelemetryRequest>>>,
    stamps: Seq<(u64, u64)>,
) -> bool {
    forall|i: int| 0 <= i < stamps.len() ==> bore(*requests[(#[trigger] stamps[i]).0], stamps[i].1)
}

/// A record that bears a recent time is still there after a cleanup.
pub proof fn law_recent_record_is_kept(
    requests: Map<u64, Arc<RwLock<TelemetryRequest>>>,
    stamps: Seq<(u64, u64)>,
    now: u64,
    at: int,
)
    requires
        stamps_cover(requests, stamps),
        0 <= at < stamps.len(),
        now - stamps[at].1 <= 3600,
    ensures
        without_expired(requests, stamps, now).contains_key(stamps[at].0),
        without_expired(requests, stamps, now)[stamps[at].0] == requests[stamps[at].0],
{
    let id = stamps[at].0;
    if shown_expired(stamps, now, id) {
        let other = choose|i: int|
            0 <= i < stamps.len() && (#[trigger] stamps[i]).0 == id && is_expired(
                now,
                stamps[i].1,
            );
        assert(other == at);
    }
}

/// A record that bears a time too long past is gone after a cleanup.
pub proof fn law_old_record_is_dropped(
    requests: Map<u64, Arc<RwLock<TelemetryRequest>>>,
    stamps: Seq<(u64, u64)>,
    now: u64,
    at: int,
)
    requires
        0 <= at < stamps.len(),
        now - stamps[at].1 > 3600,
    ensures
        !without_expired(requests, stamps, now).contains_key(stamps[at].0),
{
    assert(shown_expired(stamps, now, stamps[at].0));
}

/// A cleanup invents and changes nothing: whatever is left was there, and is the same.
pub proof fn law_cleanup_only_drops(
    requests: Map<u64, Arc<RwLock<TelemetryRequest>>>,
    stamps: Seq<(u64, u64)>,
    now: u64,
)
    ensures
        without_expired(requests, stamps, now).submap_of(requests),
{
}

/// A second cleanup on the same times finds nothing more to drop.
pub proof fn law_cleanup_is_idempotent(
    requests: Map<u64, Arc<RwLock<TelemetryRequest>>>,
    stamps: Seq<(u64, u64)>,
    now: u64,
)
    ensures
        without_expired(without_expired(requests, stamps, now), stamps, now) == without_expired(
            requests,
            stamps,
            now,
        ),
{
}

/// A record that was filed is found under its number until a cleanup shows it too old.
pub proof fn law_filed_record_is_found(
    requests: Map<u64, Arc<RwLock<TelemetryRequest>>>,
    id: u64,
    request: Arc<RwLock<TelemetryRequest>>,
    stamps: Seq<(u64, u64)>,
    now: u64,
)
    requires
        !shown_expired(stamps, now, id),
    ensures
        requests.insert(id, request)[id] == request,
        without_expired(requests.insert(id, request), stamps, now).contains_key(id),
        without_expired(requests.insert(id, request), stamps, now)[id] == request,
{
}

/// There is no request with the number that was asked for.
#[derive(Clone, Copy, Debug, PartialEq, Eq, Structural)]
pub struct RequestNotFound;

impl RequestNotFound {
    /// What the client is told.
    pub fn message(&self) -> (message: &'static str)
        ensures
            message@ == "No request with such ID exists"@,
    {
        "No request with such ID exists"
    }
}

/// All records, by the number of their request.
pub struct Telemetry {
    pub requests: HashMap<u64, Arc<RwLock<TelemetryRequest>>>,
    pub next_id: u64,
}

impl Telemetry {
    /// Every number in use is below the next one to be given out.
    pub open spec fn wf(self) -> bool {
        forall|id: u64| #[trigger] self.requests@.contains_key(id) ==> id < self.next_id
    }

    pub fn new() -> (telemetry: Self)
        ensures
            telemetry.requests@ == Map::<u64, Arc<RwLock<TelemetryRequest>>>::empty(),
            telemetry.next_id == 0,
            telemetry.wf(),
    {
        Self { requests: HashMap::new(), next_id: 0 }
    }

    /// Files a record for a request that comes in at the time `now`, under the next
    /// number, and returns the record for its handler to fill.
    pub fn new_request(&mut self, cc_request: ChatCompletionsRequest, now: u64) -> (request: Arc<
        RwLock<TelemetryRequest>,
    >)
        requires
            old(self).next_id < u64::MAX,
        ensures
            made_with(*request)@ == fresh_record(cc_request, now),
            final(self).next_id == old(self).next_id + 1,
            final(self).requests@ == old(self).requests@.insert(old(self).next_id, request),
            old(self).wf() ==> !old(self).requests@.contains_key(old(self).next_id),
            old(self).wf() ==> final(self).wf(),
    {
        let id = self.next_id;
        self.next_id = self.next_id + 1;
        let request = Arc::new(share(TelemetryRequest::begin(cc_request, now)));
        self.requests.insert(id, request.clone());
        request
    }

    /// The record of the request with the number `id`.
    pub fn find(&self, id: u64) -> (found: Result<Arc<RwLock<TelemetryRequest>>, RequestNotFound>)
        ensures
            found is Ok <==> self.requests@.contains_key(id),
            found matches Ok(request) ==> request == self.requests@[id],
    {
        match self.requests.get(&id) {
            Some(request) => Ok(request.clone()),
            None => Err(RequestNotFound),
        }
    }

    /// Drops the records that are too old at the time `now`, given the time that each
    /// record bears.
    pub fn drop_expired(&mut self, now: u64, stamps: &Vec<(u64, u64)>)
        ensures
            final(self).requests@ == without_expired(old(self).requests@, stamps@, now),
            final(self).next_id == old(self).next_id,
            old(self).wf() ==> final(self).wf(),
    {
        let mut i: usize = 0;
        assert(without_expired(self.requests@, stamps@.take(0), now) == self.requests@);
        while i < stamps.len()
            invariant
                i <= stamps@.len(),
                self.next_id == old(self).next_id,
                self.requests@ == without_expired(
                    old(self).requests@,
                    stamps@.take(i as int),
                    now,
                ),
            decreases stamps.len() - i,
        {
            let (id, timestamp) = stamps[i];
            let ghost before = stamps@.take(i as int);
            let ghost after = stamps@.take(i + 1);
            let expired = now.saturating_sub(timestamp) > MAX_AGE_SECS;
            if expired {
                self.requests.remove(&id);
            }
            proof {
                assert(after == before.push(stamps@[i as int]));
                assert forall|other: u64|
                    shown_expired(after, now, other) == (shown_expired(before, now, other) || (
                    expired && other == id)) by {
                    if shown_expired(before, now, other) {
                        let k = choose|k: int|
                            0 <= k < before.len() && (#[trigger] before[k]).0 == other
                                && is_expired(now, before[k].1);
                        assert(after[k] == before[k]);
                    }
                    if expired && other == id {
                        assert(after[i as int].0 == other);
                    }
                    if shown_expired(after, now, other) {
                        let k = choose|k: int|
                            0 <= k < after.len() && (#[trigger] after[k]).0 == other && is_expired(
                                now,
                                after[k].1,
                            );
                        if k < i {
                            assert(before[k] == after[k]);
                        }
                    }
                }
                assert(self.requests@ == without_expired(old(self).requests@, after, now));
            }
            i += 1;
        }
        assert(stamps@.take(stamps@.len() as int) == stamps@);
    }

    /// Drops the records that are too old at the time `now`, by the times that they bear when
    /// they are looked at. Which times these are is up to their handlers.
    pub fn cleanup(&mut self, now: u64)
        ensures
            exists|stamps: Seq<(u64, u64)>|
                {
                    &&& stamps_cover(old(self).requests@, stamps)
                    &&& stamps_borne(old(self).requests@, stamps)
                    &&& final(self).requests@ == #[trigger] without_expired(
                        old(self).requests@,
                        stamps,
                        now,
                    )
                },
            final(self).next_id == old(self).next_id,
            old(self).wf() ==> final(self).wf(),
    {
        let mut stamps: Vec<(u64, u64)> = Vec::new();
        let ghost entries = vstd::std_specs::iter::IteratorSpec::remaining(&self.requests.iter());
        for entry in it: self.requests.iter()
            invariant
                self.requests@ == old(self).requests@,
                self.next_id == old(self).next_id,
                it.seq() == entries,
                entries.no_duplicates(),
                forall|k: int|
                    0 <= k < entries.len() ==> self.requests@.contains_key(
                        *(#[trigger] entries[k]).0,
                    ) && self.requests@[*entries[k].0] == *entries[k].1,
                forall|id: u64| #[trigger]
                    self.requests@.contains_key(id) ==> entries.contains(
                        (&id, &self.requests@[id]),
                    ),
                stamps@.len() == it.index(),
                forall|k: int|
                    0 <= k < stamps@.len() ==> (#[trigger] stamps@[k]).0 == *entries[k].0,
                stamps_borne(self.requests@, stamps@),
        {
            let (id, request) = entry;
            stamps.push((*id, timestamp_of(request)));
        }
        proof {
            assert forall|i: int, j: int| 0 <= i < j < stamps@.len() implies (
            #[trigger] stamps@[i]).0 != (#[trigger] stamps@[j]).0 by {
                assert(entries[i] != entries[j]);
            }
            assert forall|id: u64| #[trigger] self.requests@.contains_key(id) implies exists|i: int|
                0 <= i < stamps@.len() && (#[trigger] stamps@[i]).0 == id by {
                let i = entries.index_of((&id, &self.requests@[id]));
                assert(stamps@[i].0 == id);
            }
        }
        self.drop_expired(now, &stamps);
    }
}

/// A record shows the texts, the time and the mark that it holds.
pub proof fn law_record_shows_what_it_holds(record: TelemetryRequest)
    ensures
        record@.cc_request == record.cc_request,
        record@.reasoning == record.reasoning@,
        record@.content == record.content@,
        record@.timestamp == record.timestamp,
        record@.haywire_detected == record.haywire_detected,
{
}

/// A new record is of the request as it came, at the time it came; nothing has been answered,
/// and nothing is wrong with it.
pub proof fn law_new_record_is_blank(cc_request: ChatCompletionsRequest, now: u64)
    ensures
        fresh_record(cc_request, now).cc_request == cc_request,
        fresh_record(cc_request, now).timestamp == now,
        fresh_record(cc_request, now).reasoning.len() == 0,
        fresh_record(cc_request, now).content.len() == 0,
        !fresh_record(cc_request, now).haywire_detected,
{
}

/// A response without choices leaves the texts of the record alone. Every response leaves its
/// request alone and gives it the response's time.
pub proof fn law_empty_response_adds_no_text(
    record: RecordView,
    repeats: Option<nat>,
    created: u64,
    choices: Seq<ChatCompletionsChunkChoices>,
)
    ensures
        record.after_response(repeats, created, choices).cc_request == record.cc_request,
        record.after_response(repeats, created, choices).timestamp == created,
        choices.len() == 0 ==> record.after_response(repeats, created, choices).content
            == record.content,
        choices.len() == 0 ==> record.after_response(repeats, created, choices).reasoning
            == record.reasoning,
{
    if choices.len() == 0 {
        assert(choices == Seq::<ChatCompletionsChunkChoices>::empty());
        assert(record.after_response(repeats, created, choices).content == record.content);
        assert(record.after_response(repeats, created, choices).reasoning == record.reasoning);
    }
}

/// Every choice of a response adds its texts behind those that the record has from before and
/// from the choices before it, character for character: with the last of them, the content
/// has grown by that of its delta and then that of its message, and the reasoning by that of
/// its delta.
pub proof fn law_record_grows_by_every_choice(
    record: RecordView,
    repeats: Option<nat>,
    created: u64,
    before: Seq<ChatCompletionsChunkChoices>,
    choice: ChatCompletionsChunkChoices,
)
    ensures
        ({
            let earlier = record.after_response(repeats, created, before);
            let grown = record.after_response(repeats, created, before.push(choice));
            &&& grown.content == earlier.content + (match choice.delta {
                Some(ChatCompletionsChunkDelta { content: Some(text), .. }) => text@,
                _ => Seq::empty(),
            }) + (match choice.message {
                Some(ChatCompletionsMessage { content: Some(text) }) => text@,
                _ => Seq::empty(),
            })
            &&& grown.reasoning == earlier.reasoning + (match choice.delta {
                Some(ChatCompletionsChunkDelta { reasoning_content: Some(text), .. }) => text@,
                _ => Seq::empty(),
            })
        }),
{
    crate::chat::law_choice_adds_its_texts(before, choice);
    let earlier = record.after_response(repeats, created, before);
    let grown = record.after_response(repeats, created, before.push(choice));
    assert(grown.content == earlier.content + (match choice.delta {
        Some(ChatCompletionsChunkDelta { content: Some(text), .. }) => text@,
        _ => Seq::empty(),
    }) + (match choice.message {
        Some(ChatCompletionsMessage { content: Some(text) }) => text@,
        _ => Seq::empty(),
    }));
    assert(grown.reasoning == earlier.reasoning + (match choice.delta {
        Some(ChatCompletionsChunkDelta { reasoning_content: Some(text), .. }) => text@,
        _ => Seq::empty(),
    }));
}

/// A chunk with one choice and no message adds exactly the texts of its delta to the record.
pub proof fn law_chunk_adds_its_delta(
    record: RecordView,
    repeats: Option<nat>,
    created: u64,
    delta: ChatCompletionsChunkDelta,
)
    ensures
        ({
            let choice = ChatCompletionsChunkChoices { delta: Some(delta), message: None };
            let after = record.after_response(repeats, created, seq![choice]);
            &&& delta.content matches Some(text) ==> after.content == record.content + text@
            &&& delta.content is None ==> after.content == record.content
            &&& delta.reasoning_content matches Some(text) ==> after.reasoning == record.reasoning
                + text@
            &&& delta.reasoning_content is None ==> after.reasoning == record.reasoning
        }),
{
    let none = Seq::<ChatCompletionsChunkChoices>::empty();
    let choice = ChatCompletionsChunkChoices { delta: Some(delta), message: None };
    let after = record.after_response(repeats, created, seq![choice]);
    law_empty_response_adds_no_text(record, repeats, created, none);
    law_record_grows_by_every_choice(record, repeats, created, none, choice);
    assert(none.push(choice) == seq![choice]);
    if let Some(text) = delta.content {
        assert(after.content == record.content + text@);
    } else {
        assert(after.content == record.content);
    }
    if let Some(text) = delta.reasoning_content {
        assert(after.reasoning == record.reasoning + text@);
    } else {
        assert(after.reasoning == record.reasoning);
    }
}

/// A whole response with one choice adds exactly the content of its message to the record.
pub proof fn law_whole_response_adds_its_message(
    record: RecordView,
    repeats: Option<nat>,
    created: u64,
    text: String,
)
    ensures
        ({
            let message = ChatCompletionsMessage { content: Some(text) };
            let choice = ChatCompletionsChunkChoices { delta: None, message: Some(message) };
            let after = record.after_response(repeats, created, seq![choice]);
            &&& after.content == record.content + text@
            &&& after.reasoning == record.reasoning
        }),
{
    let none = Seq::<ChatCompletionsChunkChoices>::empty();
    let message = ChatCompletionsMessage { content: Some(text) };
    let choice = ChatCompletionsChunkChoices { delta: None, message: Some(message) };
    let after = record.after_response(repeats, created, seq![choice]);
    law_empty_response_adds_no_text(record, repeats, created, none);
    law_record_grows_by_every_choice(record, repeats, created, none, choice);
    assert(none.push(choice) == seq![choice]);
    assert(after.content == record.content + text@);
    assert(after.reasoning == record.reasoning);
}

/// With a detector, a record is marked as soon as one of its texts has a character that stands
/// in it as often in a row as the detector asks for, and at least twice, whichever it is.
pub proof fn law_run_marks_the_record(
    record: RecordView,
    repeats: nat,
    created: u64,
    choices: Seq<ChatCompletionsChunkChoices>,
    text: Seq<char>,
    start: int,
    count: int,
)
    requires
        ({
            let after = record.after_response(Some(repeats), created, choices);
            text == after.content || text == after.reasoning
        }),
        repeats <= count,
        2 <= count,
        0 <= start,
        start + count <= text.len(),
        forall|k: int| start <= k < start + count ==> text[k] == text[start],
    ensures
        record.after_response(Some(repeats), created, choices).haywire_detected,
        !record.haywire_detected ==> record.marked_by(Some(repeats), choices),
{
    crate::haywire::law_run_is_flagged(text, repeats, start, count);
}

/// A mark that was not there before shows a run: the text and the position are returned. So a
/// record without a detector is not marked.
pub proof fn law_mark_shows_a_run(
    record: RecordView,
    repeats: Option<nat>,
    created: u64,
    choices: Seq<ChatCompletionsChunkChoices>,
) -> (run: (Seq<char>, int))
    requires
        !record.haywire_detected,
        record.after_response(repeats, created, choices).haywire_detected,
    ensures
        repeats is Some,
        ({
            let after = record.after_response(repeats, created, choices);
            run.0 == after.content || run.0 == after.reasoning
        }),
        0 <= run.1,
        run.1 + 2 <= run.0.len(),
        run.1 + repeats->0 <= run.0.len(),
        run.0[run.1] == run.0[run.1 + 1],
        forall|k: int| run.1 <= k < run.1 + repeats->0 ==> #[trigger] run.0[k] == run.0[run.1],
{
    let after = record.after_response(repeats, created, choices);
    let text = if is_haywire(after.content, repeats->0) {
        after.content
    } else {
        after.reasoning
    };
    let start = crate::haywire::law_flag_shows_a_run(text, repeats->0);
    (text, start)
}

/// A mark is never taken off, and the model is to be unloaded exactly when it is put on.
pub proof fn law_mark_and_unload_go_together(
    record: RecordView,
    repeats: Option<nat>,
    created: u64,
    choices: Seq<ChatCompletionsChunkChoices>,
)
    ensures
        record.haywire_detected ==> record.after_response(
            repeats,
            created,
            choices,
        ).haywire_detected,
        record.marked_by(repeats, choices) <==> !record.haywire_detected && record.after_response(
            repeats,
            created,
            choices,
        ).haywire_detected,
{
}

/// Responses are taken one after the other, the latest last.
pub proof fn law_responses_are_taken_in_order(
    record: RecordView,
    repeats: Option<nat>,
    before: Seq<(u64, Seq<ChatCompletionsChunkChoices>)>,
    created: u64,
    choices: Seq<ChatCompletionsChunkChoices>,
)
    ensures
        after_responses(record, repeats, Seq::empty()) == record,
        after_responses(record, repeats, before.push((created, choices))) == after_responses(
            record,
            repeats,
            before,
        ).after_response(repeats, created, choices),
{
    assert(before.push((created, choices)).drop_last() == before);
}

/// A detector asks for the number of repeats that it was made with.
pub proof fn law_detector_asks_for_its_number(detector: HaywireDetector)
    ensures
        repeats_of(Some(&detector)) == Some(detector.char_repeats as nat),
        repeats_of(None) is None,
{
}

/// A cleanup goes by a time for each record, one only, and for no others; and each is a time
/// that the record bore.
pub proof fn law_cleanup_looks_at_every_record(
    requests: Map<u64, Arc<RwLock<TelemetryRequest>>>,
    stamps: Seq<(u64, u64)>,
    id: u64,
) -> (at: int)
    requires
        stamps_cover(requests, stamps),
        stamps_borne(requests, stamps),
        requests.contains_key(id),
    ensures
        0 <= at < stamps.len(),
        stamps[at].0 == id,
        bore(*requests[id], stamps[at].1),
        forall|other: int| 0 <= other < stamps.len() && stamps[other].0 == id ==> other == at,
{
    choose|at: int| 0 <= at < stamps.len() && (#[trigger] stamps[at]).0 == id
}

/// A record is dropped by a cleanup if and only if it bears a time more than an hour past.
pub proof fn law_cleanup_goes_by_the_hour(
    requests: Map<u64, Arc<RwLock<TelemetryRequest>>>,
    stamps: Seq<(u64, u64)>,
    now: u64,
    id: u64,
)
    requires
        requests.contains_key(id),
    ensures
        !without_expired(requests, stamps, now).contains_key(id) <==> exists|at: int|
            0 <= at < stamps.len() && (#[trigger] stamps[at]).0 == id && now > stamps[at].1 + 3600,
        without_expired(requests, stamps, now).contains_key(id) ==> without_expired(
            requests,
            stamps,
            now,
        )[id] == requests[id],
{
    if exists|at: int|
        0 <= at < stamps.len() && (#[trigger] stamps[at]).0 == id && now > stamps[at].1 + 3600 {
        assert(shown_expired(stamps, now, id));
    }
}

} // verus!
