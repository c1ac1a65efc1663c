//! Watching the machine and the models on it: which requests may pass, and which models
//! have idled long enough to be unloaded.
use crate::clock::{elapsed_secs, secs_between};
use crate::config::Config;
use crate::endpoint::{
    address, list_models, list_slots, slots_address, unload_call, unload_model, Call, UnloadCall,
    UnloadCallView, CALL_TIMEOUT_SECS,
};
use crate::load::{in_window, SampleWindow};
use vstd::hash_map::StringHashMap;
use vstd::prelude::*;

verus! {

/// The models that the server knows.
pub struct ModelsResponse {
    pub data: Vec<Model>,
}

/// A model that the server knows.
pub struct Model {
    pub id: String,
    pub status: ModelStatus,
}

/// The status of a model.
pub struct ModelStatus {
    pub value: ModelStatusValue,
}

/// Whether a model is in memory.
#[derive(Clone, Copy, Debug, PartialEq, Eq, Structural)]
pub enum ModelStatusValue {
    Unloaded,
    Loading,
    Loaded,
    Sleeping,
}

/// A place in which a loaded model works on a request.
pub struct Slot {
    pub is_processing: bool,
}

/// The load of one GPU.
pub struct GpuReading<S> {
    pub name: String,
    pub utilization: S,
}

/// The load of the first GPU of that name.
pub open spec fn sample_of<S>(gpus: Seq<GpuReading<S>>, name: Seq<char>) -> Option<S>
    decreases gpus.len(),
{
    if gpus.len() == 0 {
        None
    } else if gpus[0].name@ == name {
        Some(gpus[0].utilization)
    } else {
        sample_of(gpus.drop_first(), name)
    }
}

/// `model` is in memory or on the way there.
pub open spec fn is_up(model: Model) -> bool {
    model.status.value == ModelStatusValue::Loaded || model.status.value
        == ModelStatusValue::Loading
}

/// `model` is not in memory, or not yet.
pub open spec fn is_out(model: Model) -> bool {
    model.status.value == ModelStatusValue::Unloaded || model.status.value
        == ModelStatusValue::Loading
}

/// The model `id` is among the first `count` of `models`, and is not in memory.
pub open spec fn listed_out(models: Seq<Model>, count: int, id: Seq<char>) -> bool {
    exists|i: int| 0 <= i < count && is_out(#[trigger] models[i]) && models[i].id@ == id
}

/// What the monitor remembers of the models.
pub struct Memory {
    /// When a model was last seen loaded or loading.
    pub last_model_loaded: Option<u64>,
    /// When each model was last seen at work, or first seen since it was loaded. There is no
    /// entry for a model that has just been loaded.
    pub models_last_active: Map<Seq<char>, u64>,
}

impl Memory {
    /// What is remembered once the model `id` is no longer in memory.
    pub open spec fn forgotten(self, id: Seq<char>) -> Memory {
        Memory { models_last_active: self.models_last_active.remove(id), ..self }
    }

    /// What is remembered once `model` has been looked at.
    pub open spec fn seen(self, model: Model, now: u64) -> Memory {
        let memory = if is_out(model) {
            self.forgotten(model.id@)
        } else {
            self
        };
        if is_up(model) {
            Memory { last_model_loaded: Some(now), ..memory }
        } else {
            memory
        }
    }

    /// What is remembered once the slots of the model `id` are known: it counts as active
    /// now if one of them is at work, or if it has just been loaded.
    pub open spec fn slots_seen(self, id: Seq<char>, busy: bool, now: u64) -> Memory {
        if busy || !self.models_last_active.contains_key(id) {
            Memory { models_last_active: self.models_last_active.insert(id, now), ..self }
        } else {
            self
        }
    }

    /// For how many whole seconds the model `id` has been idle.
    pub open spec fn idle_secs(self, id: Seq<char>, now: u64) -> u64 {
        secs_between(self.models_last_active[id], now)
    }
}

/// One of `slots` is at work.
pub open spec fn is_busy(slots: Seq<Slot>) -> bool {
    exists|i: int| 0 <= i < slots.len() && (#[trigger] slots[i]).is_processing
}

/// How far a refresh has come.
pub enum Phase {
    /// The models have been asked for.
    Listing,
    /// The slots of `model` have been asked for; `rest` is still to be looked at.
    Probing { model: Model, timeout: u64, rest: Vec<Model> },
    /// The model `id` is being unloaded; `rest` is still to be looked at.
    Unloading { id: String, rest: Vec<Model> },
    /// The refresh is over.
    Closed,
}

/// What a [`Phase`] says.
pub enum PhaseView {
    Listing,
    Probing { model: Model, timeout: u64, rest: Seq<Model> },
    Unloading { id: Seq<char>, rest: Seq<Model> },
    Closed,
}

impl View for Phase {
    type V = PhaseView;

    open spec fn view(&self) -> PhaseView {
        match self {
            Phase::Listing => PhaseView::Listing,
            Phase::Probing { model, timeout, rest } => PhaseView::Probing {
                model: *model,
                timeout: *timeout,
                rest: rest@,
            },
            Phase::Unloading { id, rest } => PhaseView::Unloading { id: id@, rest: rest@ },
            Phase::Closed => PhaseView::Closed,
        }
    }
}

/// What came of the last action.
pub enum Event {
    /// The models were listed.
    Models(ModelsResponse),
    /// The slots were listed.
    Slots(Vec<Slot>),
    /// The server answered the question for slots with something else.
    SlotsUnreadable,
    /// The server has unloaded the model.
    Unloaded,
    /// The server answered the call for the unload, but not with a success.
    NotUnloaded,
    /// The server could not be reached, or its models could not be read.
    Failed,
}

/// What a [`Event`] says.
pub enum EventView {
    Models(Seq<Model>),
    Slots(Seq<Slot>),
    SlotsUnreadable,
    Unloaded,
    NotUnloaded,
    Failed,
}

impl View for Event {
    type V = EventView;

    open spec fn view(&self) -> EventView {
        match self {
            Event::Models(response) => EventView::Models(response.data@),
            Event::Slots(slots) => EventView::Slots(slots@),
            Event::SlotsUnreadable => EventView::SlotsUnreadable,
            Event::Unloaded => EventView::Unloaded,
            Event::NotUnloaded => EventView::NotUnloaded,
            Event::Failed => EventView::Failed,
        }
    }
}

/// What is to be done next.
pub enum Action {
    /// Ask the server for its models.
    ListModels(Call),
    /// Ask the server for the slots of a model.
    ListSlots(Call),
    /// Have the server unload a model.
    Unload(UnloadCall),
    /// Nothing: the refresh is complete.
    Done,
    /// Nothing: report the failure.
    Fail,
}

/// What an [`Action`] says.
pub enum ActionView {
    ListModels((Seq<char>, u64)),
    ListSlots((Seq<char>, u64)),
    Unload(UnloadCallView),
    Done,
    Fail,
}

impl View for Action {
    type V = ActionView;

    open spec fn view(&self) -> ActionView {
        match self {
            Action::ListModels(call) => ActionView::ListModels(call@),
            Action::ListSlots(call) => ActionView::ListSlots(call@),
            Action::Unload(call) => ActionView::Unload(call@),
            Action::Done => ActionView::Done,
            Action::Fail => ActionView::Fail,
        }
    }
}

/// One step of a refresh: what is remembered, how far it has come, what is to be done.
pub struct Step {
    pub memory: Memory,
    pub phase: PhaseView,
    pub action: ActionView,
}

/// The time after which an idle `model` is to be unloaded, if its slots are to be asked
/// for at all: only if it is loaded, since asking would wake it otherwise.
pub open spec fn probe_timeout(config: Config, model: Model) -> Option<u64> {
    if model.status.value == ModelStatusValue::Loaded {
        config.limit_for(model.id@)
    } else {
        None
    }
}

/// Goes on with the models `rest` up to the first whose slots are to be asked for.
pub open spec fn advance(config: Config, memory: Memory, rest: Seq<Model>, now: u64) -> Step
    decreases rest.len(),
{
    if rest.len() == 0 {
        Step { memory, phase: PhaseView::Closed, action: ActionView::Done }
    } else {
        let model = rest[0];
        match probe_timeout(config, model) {
            Some(timeout) => Step {
                memory: memory.seen(model, now),
                phase: PhaseView::Probing { model, timeout, rest: rest.drop_first() },
                action: ActionView::ListSlots(
                    (
                        slots_address(config.target_host@, config.target_port, model.id@),
                        CALL_TIMEOUT_SECS,
                    ),
                ),
            },
            None => advance(config, memory.seen(model, now), rest.drop_first(), now),
        }
    }
}

/// A refresh that is over, with a failure.
pub open spec fn failed(memory: Memory) -> Step {
    Step { memory, phase: PhaseView::Closed, action: ActionView::Fail }
}

/// What follows on `event` in the phase `phase`.
pub open spec fn next_step(
    config: Config,
    memory: Memory,
    phase: PhaseView,
    event: EventView,
    now: u64,
) -> Step {
    match (phase, event) {
        (PhaseView::Listing, EventView::Models(models)) => advance(config, memory, models, now),
        (PhaseView::Probing { model, timeout, rest }, EventView::Slots(slots)) => {
            let memory = memory.slots_seen(model.id@, is_busy(slots), now);
            if memory.idle_secs(model.id@, now) > timeout {
                Step {
                    memory,
                    phase: PhaseView::Unloading { id: model.id@, rest },
                    action: ActionView::Unload(
                        unload_call(config.target_host@, config.target_port, model.id@),
                    ),
                }
            } else {
                advance(config, memory, rest, now)
            }
        },
        (PhaseView::Probing { model, timeout, rest }, EventView::SlotsUnreadable) => advance(
            config,
            memory,
            rest,
            now,
        ),
        (PhaseView::Unloading { id, rest }, EventView::Unloaded) => advance(
            config,
            memory.forgotten(id),
            rest,
            now,
        ),
        (PhaseView::Unloading { id, rest }, EventView::NotUnloaded) => advance(
            config,
            memory,
            rest,
            now,
        ),
        _ => failed(memory),
    }
}

/// A model was last seen loaded or loading less than `grace` whole seconds ago.
pub open spec fn in_grace(last_model_loaded: Option<u64>, grace: u64, now: u64) -> bool {
    match last_model_loaded {
        Some(since) => secs_between(since, now) < grace,
        None => false,
    }
}

/// Requests may pass: either both load averages are below their thresholds, or a model was
/// loaded recently.
pub open spec fn may_pass(
    cpu_below: bool,
    gpu_below: bool,
    last_model_loaded: Option<u64>,
    grace: u64,
    now: u64,
) -> bool {
    cpu_below && gpu_below || in_grace(last_model_loaded, grace, now)
}

/// Watches the load of the machine and the models on it. `S` is the type of a load sample.
pub struct ResourceMonitor<S> {
    pub config: Config,
    pub cpu_load_samples: SampleWindow<S>,
    pub gpu_load_samples: SampleWindow<S>,
    pub last_model_loaded: Option<u64>,
    /// Monitor when models have been active to unload when idle for a long enough time
    pub models_last_active: StringHashMap<u64>,
}

impl<S: Copy> ResourceMonitor<S> {
    /// What the monitor remembers of the models.
    pub open spec fn memory(self) -> Memory {
        Memory {
            last_model_loaded: self.last_model_loaded,
            models_last_active: self.models_last_active@,
        }
    }

    /// Both windows are as long as the settings ask for, and hold no samples that are too
    /// old for that.
    pub open spec fn wf(self) -> bool {
        &&& self.cpu_load_samples.size == self.config.load_average_window
        &&& self.gpu_load_samples.size == self.config.load_average_window
        &&& self.cpu_load_samples.wf()
        &&& self.gpu_load_samples.wf()
    }

    /// A monitor whose windows are full of `idle`, taken at `now`, so that everything is
    /// allowed at first.
    pub fn new(config: Config, idle: S, now: u64) -> (monitor: Self)
        ensures
            monitor.wf(),
            monitor.config == config,
            monitor.cpu_load_samples.size == config.load_average_window,
            monitor.gpu_load_samples.size == config.load_average_window,
            monitor.cpu_load_samples@ == Seq::new(
                config.load_average_window as nat,
                |i: int| (now, idle),
            ),
            monitor.gpu_load_samples@ == Seq::new(
                config.load_average_window as nat,
                |i: int| (now, idle),
            ),
            monitor.last_model_loaded is None,
            monitor.models_last_active@ == Map::<Seq<char>, u64>::empty(),
    {
        Self {
            cpu_load_samples: SampleWindow::filled(config.load_average_window, idle, now),
            gpu_load_samples: SampleWindow::filled(config.load_average_window, idle, now),
            config,
            last_model_loaded: None,
            models_last_active: StringHashMap::new(),
        }
    }

    /// Takes the load readings of the moment `now`: of the GPU that the settings name, if it
    /// is there, and of the last CPU. Returns whether the GPU was there.
    pub fn record_load(
        &mut self,
        gpus: &Vec<GpuReading<S>>,
        cpus: &Vec<S>,
        now: u64,
    ) -> (gpu_found: bool)
        requires
            cpus@.len() > 0,
        ensures
            gpu_found == (sample_of(gpus@, old(self).config.gpu@) is Some),
            final(self).gpu_load_samples@ == (match sample_of(gpus@, old(self).config.gpu@) {
                Some(sample) => in_window(
                    old(self).gpu_load_samples@.push((now, sample)),
                    old(self).gpu_load_samples.size as u64,
                    now,
                ),
                None => old(self).gpu_load_samples@,
            }),
            final(self).cpu_load_samples@ == in_window(
                old(self).cpu_load_samples@.push((now, cpus@.last())),
                old(self).cpu_load_samples.size as u64,
                now,
            ),
            final(self).gpu_load_samples.size == old(self).gpu_load_samples.size,
            final(self).cpu_load_samples.size == old(self).cpu_load_samples.size,
            final(self).config == old(self).config,
            final(self).memory() == old(self).memory(),
            old(self).wf() ==> final(self).wf(),
    {
        let mut gpu_found = false;
        let mut i: usize = 0;
        assert(gpus@.skip(0) == gpus@);
        while i < gpus.len() && !gpu_found
            invariant
                i <= gpus@.len(),
                *self == (Self { gpu_load_samples: self.gpu_load_samples, ..*old(self) }),
                self.gpu_load_samples.size == old(self).gpu_load_samples.size,
                !gpu_found ==> self.gpu_load_samples == old(self).gpu_load_samples,
                !gpu_found ==> sample_of(gpus@, old(self).config.gpu@) == sample_of(
                    gpus@.skip(i as int),
                    old(self).config.gpu@,
                ),
                gpu_found ==> sample_of(gpus@, old(self).config.gpu@) is Some
                    && self.gpu_load_samples.wf() && self.gpu_load_samples@ == in_window(
                    old(self).gpu_load_samples@.push(
                        (now, sample_of(gpus@, old(self).config.gpu@)->0),
                    ),
                    old(self).gpu_load_samples.size as u64,
                    now,
                ),
            decreases gpus.len() - i,
        {
            assert(gpus@.skip(i as int).drop_first() == gpus@.skip(i + 1));
            if gpus[i].name == self.config.gpu {
                self.gpu_load_samples.slide(gpus[i].utilization, now);
                gpu_found = true;
            }
            i += 1;
        }
        self.cpu_load_samples.slide(cpus[cpus.len() - 1], now);
        gpu_found
    }

    /// Starts a refresh: takes the load readings of the moment `now`, then has the models
    /// asked for. Besides the phase and the action, returns whether the GPU that the settings
    /// name was there.
    pub fn refresh(&mut self, gpus: &Vec<GpuReading<S>>, cpus: &Vec<S>, now: u64) -> (begun: (
        bool,
        Phase,
        Action,
    ))
        requires
            cpus@.len() > 0,
        ensures
            begun.0 == (sample_of(gpus@, old(self).config.gpu@) is Some),
            begun.1@ == PhaseView::Listing,
            begun.2@ == ActionView::ListModels(
                (
                    address(
                        old(self).config.target_host@,
                        old(self).config.target_port,
                        "/v1/models"@,
                    ),
                    CALL_TIMEOUT_SECS,
                ),
            ),
            final(self).gpu_load_samples@ == (match sample_of(gpus@, old(self).config.gpu@) {
                Some(sample) => in_window(
                    old(self).gpu_load_samples@.push((now, sample)),
                    old(self).gpu_load_samples.size as u64,
                    now,
                ),
                None => old(self).gpu_load_samples@,
            }),
            final(self).cpu_load_samples@ == in_window(
                old(self).cpu_load_samples@.push((now, cpus@.last())),
                old(self).cpu_load_samples.size as u64,
                now,
            ),
            final(self).gpu_load_samples.size == old(self).gpu_load_samples.size,
            final(self).cpu_load_samples.size == old(self).cpu_load_samples.size,
            final(self).config == old(self).config,
            final(self).memory() == old(self).memory(),
            old(self).wf() ==> final(self).wf(),
    {
        let gpu_found = self.record_load(gpus, cpus, now);
        let call = list_models(self.config.target_host.as_str(), self.config.target_port);
        (gpu_found, Phase::Listing, Action::ListModels(call))
    }

    /// Goes on with `models` up to the first whose slots are to be asked for.
    fn go_on(&mut self, models: Vec<Model>, now: u64) -> (next: (Phase, Action))
        ensures
            ({
                let step = advance(old(self).config, old(self).memory(), models@, now);
                &&& final(self).memory() == step.memory
                &&& next.0@ == step.phase
                &&& next.1@ == step.action
            }),
            final(self).config == old(self).config,
            final(self).cpu_load_samples == old(self).cpu_load_samples,
            final(self).gpu_load_samples == old(self).gpu_load_samples,
    {
        let ghost whole = advance(self.config, self.memory(), models@, now);
        let mut rest = models;
        while rest.len() > 0
            invariant
                whole == advance(old(self).config, old(self).memory(), models@, now),
                whole == advance(self.config, self.memory(), rest@, now),
                self.config == old(self).config,
                self.cpu_load_samples == old(self).cpu_load_samples,
                self.gpu_load_samples == old(self).gpu_load_samples,
            decreases rest.len(),
        {
            let ghost before = rest@;
            let model = rest.remove(0);
            assert(rest@ == before.drop_first());
            if model.status.value == ModelStatusValue::Loaded || model.status.value
                == ModelStatusValue::Loading {
                self.last_model_loaded = Some(now);
            }
            if model.status.value == ModelStatusValue::Unloaded || model.status.value
                == ModelStatusValue::Loading {
                self.models_last_active.remove(model.id.as_str());
            }
            if let Some(timeout) = self.config.idle_unload_timeout(model.id.as_str()) {
                // Asking for the slots of a model that is not loaded would wake it.
                if model.status.value == ModelStatusValue::Loaded {
                    let call = list_slots(
                        self.config.target_host.as_str(),
                        self.config.target_port,
                        model.id.as_str(),
                    );
                    return (Phase::Probing { model, timeout, rest }, Action::ListSlots(call));
                }
            }
        }
        (Phase::Closed, Action::Done)
    }

    /// Takes in what came of the last action of a refresh, and says what is to be done
    /// next. The clock is read once for each event, as `now`.
    pub fn refresh_step(&mut self, phase: Phase, event: Event, now: u64) -> (next: (Phase, Action))
        ensures
            ({
                let step = next_step(old(self).config, old(self).memory(), phase@, event@, now);
                &&& final(self).memory() == step.memory
                &&& next.0@ == step.phase
                &&& next.1@ == step.action
            }),
            final(self).config == old(self).config,
            final(self).cpu_load_samples == old(self).cpu_load_samples,
            final(self).gpu_load_samples == old(self).gpu_load_samples,
            old(self).wf() ==> final(self).wf(),
    {
        match (phase, event) {
            (Phase::Listing, Event::Models(models)) => self.go_on(models.data, now),
            (Phase::Probing { model, timeout, rest }, Event::Slots(slots)) => {
                // A model that has just been loaded has no entry.
                if !self.models_last_active.contains_key(model.id.as_str()) {
                    self.models_last_active.insert(model.id.clone(), now);
                }
                if any_processing(&slots) {
                    self.models_last_active.insert(model.id.clone(), now);
                }
                assert(self.models_last_active@ == old(self).memory().slots_seen(
                    model.id@,
                    is_busy(slots@),
                    now,
                ).models_last_active);
                let idle_secs: u64 = match self.models_last_active.get(model.id.as_str()) {
                    Some(last_active) => elapsed_secs(*last_active, now),
                    None => 0,
                };
                if idle_secs > timeout {
                    let call = unload_model(
                        self.config.target_host.as_str(),
                        self.config.target_port,
                        model.id.as_str(),
                    );
                    (Phase::Unloading { id: model.id, rest }, Action::Unload(call))
                } else {
                    self.go_on(rest, now)
                }
            },
            (Phase::Probing { model: _, timeout: _, rest }, Event::SlotsUnreadable) => self.go_on(
                rest,
                now,
            ),
            (Phase::Unloading { id, rest }, Event::Unloaded) => {
                self.models_last_active.remove(id.as_str());
                self.go_on(rest, now)
            },
            // A model that may still be loaded stays known, so that it is unloaded next time.
            (Phase::Unloading { id: _, rest }, Event::NotUnloaded) => self.go_on(rest, now),
            _ => (Phase::Closed, Action::Fail),
        }
    }

    /// Whether requests may pass: either the machine has been idling, both load averages
    /// being below their thresholds, or a model was loaded recently.
    pub fn api_allowed(&self, cpu_below: bool, gpu_below: bool, now: u64) -> (allowed: bool)
        ensures
            allowed == may_pass(
                cpu_below,
                gpu_below,
                self.last_model_loaded,
                self.config.model_loaded_grace,
                now,
            ),
    {
        let load_allowed = cpu_below && gpu_below;
        let since_loaded: u64 = match self.last_model_loaded {
            Some(since) => elapsed_secs(since, now),
            None => u64::MAX,
        };
        let grace_allowed = since_loaded < self.config.model_loaded_grace;
        load_allowed || grace_allowed
    }
}

/// What an answer with the status code `status` to the call for an unload means.
pub fn unload_answered(status: u16) -> (event: Event)
    ensures
        event@ == if 200 <= status <= 299 {
            EventView::Unloaded
        } else {
            EventView::NotUnloaded
        },
{
    if 200 <= status && status <= 299 {
        Event::Unloaded
    } else {
        Event::NotUnloaded
    }
}

/// Whether one of `slots` is at work.
fn any_processing(slots: &Vec<Slot>) -> (busy: bool)
    ensures
        busy == is_busy(slots@),
{
    let mut i: usize = 0;
    while i < slots.len()
        invariant
            i <= slots@.len(),
            forall|k: int| 0 <= k < i ==> !(#[trigger] slots@[k]).is_processing,
        decreases slots.len() - i,
    {
        if slots[i].is_processing {
            return true;
        }
        i += 1;
    }
    false
}

/// How much of a refresh may still be ahead, in steps. It is counted only from when the
/// models are listed to the end, and is 0 before and after.
pub open spec fn steps_left(phase: PhaseView) -> nat {
    match phase {
        PhaseView::Listing => 0,
        PhaseView::Probing { model, timeout, rest } => 2 * rest.len() + 2,
        PhaseView::Unloading { id, rest } => 2 * rest.len() + 1,
        PhaseView::Closed => 0,
    }
}

/// The clock readings that are remembered do not lie after `now`.
pub open spec fn remembers_the_past(memory: Memory, now: u64) -> bool {
    &&& memory.last_model_loaded matches Some(since) ==> since <= now
    &&& forall|id: Seq<char>| #[trigger]
        memory.models_last_active.contains_key(id) ==> memory.models_last_active[id] <= now
}

/// Slots are asked for only of a model that is loaded and has an idle limit, and they are
/// asked of that model.
pub proof fn law_only_loaded_models_are_probed(
    config: Config,
    memory: Memory,
    phase: PhaseView,
    event: EventView,
    now: u64,
)
    ensures
        ({
            let step = next_step(config, memory, phase, event, now);
            &&& step.action is ListSlots <==> step.phase is Probing
            &&& step.phase matches PhaseView::Probing { model, timeout, rest } ==> {
                &&& model.status.value == ModelStatusValue::Loaded
                &&& config.limit_for(model.id@) == Some(timeout)
                &&& step.action == ActionView::ListSlots(
                    (
                        slots_address(config.target_host@, config.target_port, model.id@),
                        CALL_TIMEOUT_SECS,
                    ),
                )
            }
        }),
{
    match (phase, event) {
        (PhaseView::Listing, EventView::Models(models)) => {
            lemma_advance_probes_loaded(config, memory, models, now);
        },
        (PhaseView::Probing { model, timeout, rest }, EventView::Slots(slots)) => {
            lemma_advance_probes_loaded(
                config,
                memory.slots_seen(model.id@, is_busy(slots), now),
                rest,
                now,
            );
        },
        (PhaseView::Probing { model, timeout, rest }, EventView::SlotsUnreadable) => {
            lemma_advance_probes_loaded(config, memory, rest, now);
        },
        (PhaseView::Unloading { id, rest }, EventView::Unloaded) => {
            lemma_advance_probes_loaded(config, memory.forgotten(id), rest, now);
        },
        (PhaseView::Unloading { id, rest }, EventView::NotUnloaded) => {
            lemma_advance_probes_loaded(config, memory, rest, now);
        },
        _ => {},
    }
}

proof fn lemma_advance_probes_loaded(config: Config, memory: Memory, rest: Seq<Model>, now: u64)
    ensures
        ({
            let step = advance(config, memory, rest, now);
            &&& step.action is ListSlots <==> step.phase is Probing
            &&& !(step.action is Unload)
            &&& !(step.action is Fail)
            &&& step.phase matches PhaseView::Probing { model, timeout, rest: later } ==> {
                &&& later.len() < rest.len()
                &&& model.status.value == ModelStatusValue::Loaded
                &&& config.limit_for(model.id@) == Some(timeout)
                &&& step.action == ActionView::ListSlots(
                    (
                        slots_address(config.target_host@, config.target_port, model.id@),
                        CALL_TIMEOUT_SECS,
                    ),
                )
            }
            &&& !(step.phase is Unloading)
            &&& !(step.phase is Listing)
            &&& step.memory.last_model_loaded == memory.last_model_loaded
                || step.memory.last_model_loaded == Some(now)
        }),
    decreases rest.len(),
{
    if rest.len() > 0 {
        lemma_advance_probes_loaded(config, memory.seen(rest[0], now), rest.drop_first(), now);
    }
}

/// A model is unloaded only when its slots were asked for, none of them is at work, it was
/// known before, and more whole seconds than its limit have passed since it was active.
pub proof fn law_only_idle_models_are_unloaded(
    config: Config,
    memory: Memory,
    phase: PhaseView,
    event: EventView,
    now: u64,
)
    requires
        next_step(config, memory, phase, event, now).action is Unload,
    ensures
        phase matches PhaseView::Probing { model, timeout, rest } && event matches EventView::Slots(
            slots,
        ) && {
            &&& !is_busy(slots)
            &&& memory.models_last_active.contains_key(model.id@)
            &&& secs_between(memory.models_last_active[model.id@], now) > timeout
            &&& next_step(config, memory, phase, event, now).action == ActionView::Unload(
                unload_call(config.target_host@, config.target_port, model.id@),
            )
        },
{
    match (phase, event) {
        (PhaseView::Listing, EventView::Models(models)) => {
            lemma_advance_probes_loaded(config, memory, models, now);
        },
        (PhaseView::Probing { model, timeout, rest }, EventView::Slots(slots)) => {
            lemma_advance_probes_loaded(
                config,
                memory.slots_seen(model.id@, is_busy(slots), now),
                rest,
                now,
            );
        },
        (PhaseView::Probing { model, timeout, rest }, EventView::SlotsUnreadable) => {
            lemma_advance_probes_loaded(config, memory, rest, now);
        },
        (PhaseView::Unloading { id, rest }, EventView::Unloaded) => {
            lemma_advance_probes_loaded(config, memory.forgotten(id), rest, now);
        },
        (PhaseView::Unloading { id, rest }, EventView::NotUnloaded) => {
            lemma_advance_probes_loaded(config, memory, rest, now);
        },
        _ => {},
    }
}

/// A model that is known, has no slot at work and has been idle for longer than its limit
/// is unloaded.
pub proof fn law_idle_model_is_unloaded(
    config: Config,
    memory: Memory,
    model: Model,
    timeout: u64,
    rest: Seq<Model>,
    slots: Seq<Slot>,
    now: u64,
)
    requires
        !is_busy(slots),
        memory.models_last_active.contains_key(model.id@),
        secs_between(memory.models_last_active[model.id@], now) > timeout,
    ensures
        next_step(
            config,
            memory,
            PhaseView::Probing { model, timeout, rest },
            EventView::Slots(slots),
            now,
        ).action == ActionView::Unload(
            unload_call(config.target_host@, config.target_port, model.id@),
        ),
{
}

/// How many of `models` have been looked at when the refresh is in the phase `phase`.
pub open spec fn looked_at(models: Seq<Model>, phase: PhaseView) -> int {
    match phase {
        PhaseView::Probing { model, timeout, rest } => models.len() - rest.len(),
        PhaseView::Unloading { id, rest } => models.len() - rest.len(),
        _ => models.len() as int,
    }
}

/// Going on with `models` forgets those of them that are looked at and are not in memory,
/// and remembers all others as before.
pub proof fn law_models_not_in_memory_are_forgotten(
    config: Config,
    memory: Memory,
    models: Seq<Model>,
    now: u64,
    id: Seq<char>,
)
    ensures
        ({
            let step = advance(config, memory, models, now);
            let after = step.memory.models_last_active;
            let out = listed_out(models, looked_at(models, step.phase), id);
            &&& after.contains_key(id) <==> memory.models_last_active.contains_key(id) && !out
            &&& after.contains_key(id) ==> after[id] == memory.models_last_active[id]
        }),
    decreases models.len(),
{
    if models.len() > 0 {
        let step = advance(config, memory, models, now);
        let looked = looked_at(models, step.phase);
        if probe_timeout(config, models[0]) is Some {
            assert(looked == 1);
            assert(!listed_out(models, looked, id));
        } else {
            let later = models.drop_first();
            law_models_not_in_memory_are_forgotten(
                config,
                memory.seen(models[0], now),
                later,
                now,
                id,
            );
            lemma_advance_probes_loaded(config, memory.seen(models[0], now), later, now);
            assert(forall|i: int| 0 <= i < later.len() ==> later[i] == models[i + 1]);
            assert(listed_out(models, looked, id) <==> is_out(models[0]) && models[0].id@ == id
                || listed_out(later, looked - 1, id)) by {
                if listed_out(models, looked, id) {
                    let i = choose|i: int|
                        0 <= i < looked && is_out(#[trigger] models[i]) && models[i].id@ == id;
                    if i > 0 {
                        assert(is_out(later[i - 1]));
                    }
                }
                if listed_out(later, looked - 1, id) {
                    let i = choose|i: int|
                        0 <= i < looked - 1 && is_out(#[trigger] later[i]) && later[i].id@ == id;
                    assert(is_out(models[i + 1]));
                }
            }
        }
    }
}

/// A model that was unloaded is forgotten.
pub proof fn law_unloaded_model_is_forgotten(
    config: Config,
    memory: Memory,
    id: Seq<char>,
    rest: Seq<Model>,
    now: u64,
)
    ensures
        !next_step(
            config,
            memory,
            PhaseView::Unloading { id, rest },
            EventView::Unloaded,
            now,
        ).memory.models_last_active.contains_key(id),
{
    law_models_not_in_memory_are_forgotten(config, memory.forgotten(id), rest, now, id);
}

/// A model that the server did not unload is remembered as before, unless the listing goes on
/// to name it once more as not in memory. So, as long as it is listed as loaded, it is not
/// taken for new: idle for longer than its limit, it is unloaded as soon as its slots are asked
/// for again.
pub proof fn law_refused_unload_is_repeated(
    config: Config,
    memory: Memory,
    model: Model,
    timeout: u64,
    rest: Seq<Model>,
    now: u64,
    slots: Seq<Slot>,
    later: Seq<Model>,
    again: u64,
)
    requires
        memory.models_last_active.contains_key(model.id@),
        secs_between(memory.models_last_active[model.id@], now) > timeout,
        now <= again,
        !is_busy(slots),
        ({
            let step = next_step(
                config,
                memory,
                PhaseView::Unloading { id: model.id@, rest },
                EventView::NotUnloaded,
                now,
            );
            !listed_out(rest, looked_at(rest, step.phase), model.id@)
        }),
    ensures
        ({
            let step = next_step(
                config,
                memory,
                PhaseView::Unloading { id: model.id@, rest },
                EventView::NotUnloaded,
                now,
            );
            &&& step.memory.models_last_active.contains_key(model.id@)
            &&& step.memory.models_last_active[model.id@] == memory.models_last_active[model.id@]
            &&& next_step(
                config,
                step.memory,
                PhaseView::Probing { model, timeout, rest: later },
                EventView::Slots(slots),
                again,
            ).action == ActionView::Unload(
                unload_call(config.target_host@, config.target_port, model.id@),
            )
        }),
{
    law_models_not_in_memory_are_forgotten(config, memory, rest, now, model.id@);
}

/// A model that has just been loaded is not unloaded, whatever its slots and its limit are:
/// it counts as active from now on, unless the listing goes on to name it once more as not
/// in memory.
pub proof fn law_new_model_is_not_unloaded(
    config: Config,
    memory: Memory,
    model: Model,
    timeout: u64,
    rest: Seq<Model>,
    slots: Seq<Slot>,
    now: u64,
)
    requires
        !memory.models_last_active.contains_key(model.id@),
    ensures
        ({
            let step = next_step(
                config,
                memory,
                PhaseView::Probing { model, timeout, rest },
                EventView::Slots(slots),
                now,
            );
            &&& !(step.action is Unload)
            &&& !listed_out(rest, looked_at(rest, step.phase), model.id@) ==> {
                &&& step.memory.models_last_active.contains_key(model.id@)
                &&& step.memory.models_last_active[model.id@] == now
            }
        }),
{
    let seen = memory.slots_seen(model.id@, is_busy(slots), now);
    lemma_advance_probes_loaded(config, seen, rest, now);
    law_models_not_in_memory_are_forgotten(config, seen, rest, now, model.id@);
}

/// The models that are still to be looked at when `event` comes in the phase `phase`.
pub open spec fn models_ahead(phase: PhaseView, event: EventView) -> Seq<Model> {
    match (phase, event) {
        (PhaseView::Listing, EventView::Models(models)) => models,
        (PhaseView::Probing { model, timeout, rest }, _) => rest,
        (PhaseView::Unloading { id, rest }, _) => rest,
        _ => Seq::empty(),
    }
}

/// A step touches the memory of the model whose slots were asked for, of the model that was
/// unloaded, and of those looked at that are not in memory; of no other.
pub proof fn law_other_models_are_not_touched(
    config: Config,
    memory: Memory,
    phase: PhaseView,
    event: EventView,
    now: u64,
    other: Seq<char>,
)
    requires
        phase matches PhaseView::Probing { model, timeout, rest } ==> other != model.id@,
        phase matches PhaseView::Unloading { id, rest } ==> other != id,
        ({
            let step = next_step(config, memory, phase, event, now);
            let ahead = models_ahead(phase, event);
            step.action is Fail || !listed_out(ahead, looked_at(ahead, step.phase), other)
        }),
    ensures
        ({
            let after = next_step(config, memory, phase, event, now).memory.models_last_active;
            &&& after.contains_key(other) == memory.models_last_active.contains_key(other)
            &&& memory.models_last_active.contains_key(other) ==> after[other]
                == memory.models_last_active[other]
        }),
{
    lemma_step_memory(config, memory, phase, event, now, other);
}

/// What a step that looks at models does to the memory of the model `id`.
proof fn lemma_step_memory(
    config: Config,
    memory: Memory,
    phase: PhaseView,
    event: EventView,
    now: u64,
    id: Seq<char>,
)
    ensures
        ({
            let step = next_step(config, memory, phase, event, now);
            let ahead = models_ahead(phase, event);
            let out = listed_out(ahead, looked_at(ahead, step.phase), id);
            let own = match (phase, event) {
                (PhaseView::Probing { model, timeout, rest }, EventView::Slots(slots)) =>
                    memory.slots_seen(model.id@, is_busy(slots), now),
                (PhaseView::Unloading { id: unloaded, rest }, EventView::Unloaded) =>
                    memory.forgotten(unloaded),
                _ => memory,
            }.models_last_active;
            let after = step.memory.models_last_active;
            &&& after.contains_key(id) ==> own.contains_key(id) && after[id] == own[id]
            &&& step.action is Fail || !out ==> after.contains_key(id) == own.contains_key(id)
        }),
{
    match (phase, event) {
        (PhaseView::Listing, EventView::Models(models)) => {
            lemma_advance_probes_loaded(config, memory, models, now);
            law_models_not_in_memory_are_forgotten(config, memory, models, now, id);
        },
        (PhaseView::Probing { model, timeout, rest }, EventView::Slots(slots)) => {
            let seen = memory.slots_seen(model.id@, is_busy(slots), now);
            lemma_advance_probes_loaded(config, seen, rest, now);
            law_models_not_in_memory_are_forgotten(config, seen, rest, now, id);
        },
        (PhaseView::Probing { model, timeout, rest }, EventView::SlotsUnreadable) => {
            lemma_advance_probes_loaded(config, memory, rest, now);
            law_models_not_in_memory_are_forgotten(config, memory, rest, now, id);
        },
        (PhaseView::Unloading { id: unloaded, rest }, EventView::Unloaded) => {
            let left = memory.forgotten(unloaded);
            lemma_advance_probes_loaded(config, left, rest, now);
            law_models_not_in_memory_are_forgotten(config, left, rest, now, id);
        },
        (PhaseView::Unloading { id: unloaded, rest }, EventView::NotUnloaded) => {
            lemma_advance_probes_loaded(config, memory, rest, now);
            law_models_not_in_memory_are_forgotten(config, memory, rest, now, id);
        },
        _ => {},
    }
}

/// A refresh comes to an end: once the models are listed, every step leaves fewer steps.
pub proof fn law_refresh_comes_to_an_end(
    config: Config,
    memory: Memory,
    phase: PhaseView,
    event: EventView,
    now: u64,
)
    requires
        phase is Probing || phase is Unloading,
    ensures
        steps_left(next_step(config, memory, phase, event, now).phase) < steps_left(phase),
        !(next_step(config, memory, phase, event, now).phase is Listing),
{
    match (phase, event) {
        (PhaseView::Probing { model, timeout, rest }, EventView::Slots(slots)) => {
            lemma_advance_probes_loaded(
                config,
                memory.slots_seen(model.id@, is_busy(slots), now),
                rest,
                now,
            );
        },
        (PhaseView::Probing { model, timeout, rest }, EventView::SlotsUnreadable) => {
            lemma_advance_probes_loaded(config, memory, rest, now);
        },
        (PhaseView::Unloading { id, rest }, EventView::Unloaded) => {
            lemma_advance_probes_loaded(config, memory.forgotten(id), rest, now);
        },
        (PhaseView::Unloading { id, rest }, EventView::NotUnloaded) => {
            lemma_advance_probes_loaded(config, memory, rest, now);
        },
        _ => {},
    }
}

/// A failure ends the refresh and changes nothing that is remembered.
pub proof fn law_failure_ends_the_refresh(
    config: Config,
    memory: Memory,
    phase: PhaseView,
    now: u64,
)
    ensures
        next_step(config, memory, phase, EventView::Failed, now) == failed(memory),
{
}

/// Nothing more is done in a refresh that is over.
pub proof fn law_closed_refresh_does_nothing(
    config: Config,
    memory: Memory,
    event: EventView,
    now: u64,
)
    ensures
        next_step(config, memory, PhaseView::Closed, event, now) == failed(memory),
{
}

/// As long as the clock does not run backwards, nothing is remembered from the future.
pub proof fn law_memory_is_of_the_past(
    config: Config,
    memory: Memory,
    phase: PhaseView,
    event: EventView,
    now: u64,
)
    requires
        remembers_the_past(memory, now),
    ensures
        remembers_the_past(next_step(config, memory, phase, event, now).memory, now),
{
    let after = next_step(config, memory, phase, event, now).memory.models_last_active;
    assert forall|id: Seq<char>| #[trigger] after.contains_key(id) implies after[id] <= now by {
        lemma_step_memory(config, memory, phase, event, now, id);
    }
    match (phase, event) {
        (PhaseView::Listing, EventView::Models(models)) => {
            lemma_advance_probes_loaded(config, memory, models, now);
        },
        (PhaseView::Probing { model, timeout, rest }, EventView::Slots(slots)) => {
            lemma_advance_probes_loaded(
                config,
                memory.slots_seen(model.id@, is_busy(slots), now),
                rest,
                now,
            );
        },
        (PhaseView::Probing { model, timeout, rest }, EventView::SlotsUnreadable) => {
            lemma_advance_probes_loaded(config, memory, rest, now);
        },
        (PhaseView::Unloading { id, rest }, EventView::Unloaded) => {
            lemma_advance_probes_loaded(config, memory.forgotten(id), rest, now);
        },
        (PhaseView::Unloading { id, rest }, EventView::NotUnloaded) => {
            lemma_advance_probes_loaded(config, memory, rest, now);
        },
        _ => {},
    }
}

/// Going on with `models` marks the present as the time a model was last seen loaded if
/// one of those looked at is loaded or loading, and leaves that mark alone otherwise.
pub proof fn law_loaded_models_open_the_grace_period(
    config: Config,
    memory: Memory,
    models: Seq<Model>,
    now: u64,
)
    ensures
        ({
            let step = advance(config, memory, models, now);
            let looked = looked_at(models, step.phase);
            &&& 0 <= looked <= models.len()
            &&& step.memory.last_model_loaded == if exists|i: int|
                0 <= i < looked && is_up(#[trigger] models[i]) {
                Some(now)
            } else {
                memory.last_model_loaded
            }
        }),
    decreases models.len(),
{
    if models.len() > 0 {
        let step = advance(config, memory, models, now);
        let looked = looked_at(models, step.phase);
        if probe_timeout(config, models[0]) is Some {
            assert(looked == 1);
            assert(is_up(models[0]));
        } else {
            let later = models.drop_first();
            law_loaded_models_open_the_grace_period(
                config,
                memory.seen(models[0], now),
                later,
                now,
            );
            lemma_advance_probes_loaded(config, memory.seen(models[0], now), later, now);
            assert(forall|i: int| 0 <= i < later.len() ==> later[i] == models[i + 1]);
            if exists|i: int| 0 <= i < looked && is_up(#[trigger] models[i]) {
                let i = choose|i: int| 0 <= i < looked && is_up(#[trigger] models[i]);
                if i > 0 {
                    assert(is_up(later[i - 1]));
                }
            }
            if exists|i: int| 0 <= i < looked - 1 && is_up(#[trigger] later[i]) {
                let i = choose|i: int| 0 <= i < looked - 1 && is_up(#[trigger] later[i]);
                assert(is_up(models[i + 1]));
            }
        }
    }
}

/// Once a model was seen loaded, requests pass until the grace period is over, whatever
/// the load is; a model that was never seen opens no such period.
pub proof fn law_grace_period(since: u64, grace: u64, now: u64)
    requires
        since <= now,
    ensures
        in_grace(Some(since), grace, now) == (now - since < grace * 1_000_000_000),
        !in_grace(None, grace, now),
{
}

/// The calls that ask for the slots of those of `models` whose slots are to be asked for.
pub open spec fn slot_calls(config: Config, models: Seq<Model>) -> Seq<(Seq<char>, u64)>
    decreases models.len(),
{
    if models.len() == 0 {
        Seq::empty()
    } else if probe_timeout(config, models[0]) is Some {
        seq![
            (
                slots_address(config.target_host@, config.target_port, models[0].id@),
                CALL_TIMEOUT_SECS,
            ),
        ] + slot_calls(config, models.drop_first())
    } else {
        slot_calls(config, models.drop_first())
    }
}

/// The call for slots that `action` makes, if it makes one.
pub open spec fn slot_call_of(action: ActionView) -> Seq<(Seq<char>, u64)> {
    match action {
        ActionView::ListSlots(call) => seq![call],
        _ => Seq::empty(),
    }
}

/// The calls for slots that are made while `events` come, each with its clock reading.
pub open spec fn slot_calls_made(
    config: Config,
    memory: Memory,
    phase: PhaseView,
    events: Seq<(EventView, u64)>,
) -> Seq<(Seq<char>, u64)>
    decreases events.len(),
{
    if events.len() == 0 {
        Seq::empty()
    } else {
        let step = next_step(config, memory, phase, events[0].0, events[0].1);
        slot_call_of(step.action) + slot_calls_made(
            config,
            step.memory,
            step.phase,
            events.drop_first(),
        )
    }
}

/// The last of `events` completes the refresh, and none before it ends it.
pub open spec fn completes(
    config: Config,
    memory: Memory,
    phase: PhaseView,
    events: Seq<(EventView, u64)>,
) -> bool
    decreases events.len(),
{
    events.len() > 0 && {
        let step = next_step(config, memory, phase, events[0].0, events[0].1);
        if events.len() == 1 {
            step.action is Done
        } else {
            !(step.phase is Closed) && completes(
                config,
                step.memory,
                step.phase,
                events.drop_first(),
            )
        }
    }
}

/// A refresh that completes has asked for the slots of every model of the listing that is
/// loaded and has an idle limit: once each, in the order of the listing, and for no others.
pub proof fn law_complete_refresh_probes_each_model_once(
    config: Config,
    memory: Memory,
    models: Seq<Model>,
    now: u64,
    later: Seq<(EventView, u64)>,
)
    requires
        completes(
            config,
            memory,
            PhaseView::Listing,
            seq![(EventView::Models(models), now)] + later,
        ),
    ensures
        slot_calls_made(
            config,
            memory,
            PhaseView::Listing,
            seq![(EventView::Models(models), now)] + later,
        ) == slot_calls(config, models),
{
    let events = seq![(EventView::Models(models), now)] + later;
    assert(events.drop_first() == later);
    lemma_advance_calls(config, memory, models, now, later);
}

proof fn lemma_advance_calls(
    config: Config,
    memory: Memory,
    models: Seq<Model>,
    now: u64,
    later: Seq<(EventView, u64)>,
)
    requires
        ({
            let step = advance(config, memory, models, now);
            if later.len() == 0 {
                step.action is Done
            } else {
                !(step.phase is Closed) && completes(config, step.memory, step.phase, later)
            }
        }),
    ensures
        ({
            let step = advance(config, memory, models, now);
            slot_call_of(step.action) + slot_calls_made(config, step.memory, step.phase, later)
                == slot_calls(config, models)
        }),
    decreases later.len(), models.len(),
{
    if models.len() > 0 {
        let step = advance(config, memory, models, now);
        if probe_timeout(config, models[0]) is Some {
            lemma_probing_calls(config, step.memory, step.phase, later);
        } else {
            lemma_advance_calls(
                config,
                memory.seen(models[0], now),
                models.drop_first(),
                now,
                later,
            );
        }
    }
}

proof fn lemma_probing_calls(
    config: Config,
    memory: Memory,
    phase: PhaseView,
    events: Seq<(EventView, u64)>,
)
    requires
        phase is Probing || phase is Unloading,
        completes(config, memory, phase, events),
    ensures
        phase matches PhaseView::Probing { model, timeout, rest } ==> slot_calls_made(
            config,
            memory,
            phase,
            events,
        ) == slot_calls(config, rest),
        phase matches PhaseView::Unloading { id, rest } ==> slot_calls_made(
            config,
            memory,
            phase,
            events,
        ) == slot_calls(config, rest),
    decreases events.len(), 0nat,
{
    let (event, now) = events[0];
    let later = events.drop_first();
    let step = next_step(config, memory, phase, event, now);
    match (phase, event) {
        (PhaseView::Probing { model, timeout, rest }, EventView::Slots(slots)) => {
            let seen = memory.slots_seen(model.id@, is_busy(slots), now);
            if seen.idle_secs(model.id@, now) > timeout {
                lemma_probing_calls(config, step.memory, step.phase, later);
                assert(slot_call_of(step.action) + slot_calls_made(
                    config,
                    step.memory,
                    step.phase,
                    later,
                ) == slot_calls(config, rest));
            } else {
                lemma_advance_calls(config, seen, rest, now, later);
            }
        },
        (PhaseView::Probing { model, timeout, rest }, EventView::SlotsUnreadable) => {
            lemma_advance_calls(config, memory, rest, now, later);
        },
        (PhaseView::Unloading { id, rest }, EventView::Unloaded) => {
            lemma_advance_calls(config, memory.forgotten(id), rest, now, later);
        },
        (PhaseView::Unloading { id, rest }, EventView::NotUnloaded) => {
            lemma_advance_calls(config, memory, rest, now, later);
        },
        _ => {},
    }
}

/// The load that counts is that of the first reading that bears exactly the name asked for.
pub proof fn law_first_reading_of_the_name_counts<S>(
    gpus: Seq<GpuReading<S>>,
    name: Seq<char>,
    at: int,
)
    requires
        0 <= at < gpus.len(),
        gpus[at].name@ == name,
        forall|earlier: int| 0 <= earlier < at ==> (#[trigger] gpus[earlier]).name@ != name,
    ensures
        sample_of(gpus, name) == Some(gpus[at].utilization),
    decreases gpus.len(),
{
    if at > 0 {
        let later = gpus.drop_first();
        assert forall|earlier: int| 0 <= earlier < at - 1 implies (
        #[trigger] later[earlier]).name@ != name by {
            assert(later[earlier] == gpus[earlier + 1]);
        }
        assert(gpus[0].name@ != name);
        law_first_reading_of_the_name_counts(later, name, at - 1);
    }
}

/// There is no load if and only if no reading bears the name asked for.
pub proof fn law_no_reading_of_the_name_no_load<S>(gpus: Seq<GpuReading<S>>, name: Seq<char>)
    ensures
        sample_of(gpus, name) is None <==> forall|at: int|
            0 <= at < gpus.len() ==> (#[trigger] gpus[at]).name@ != name,
    decreases gpus.len(),
{
    if gpus.len() > 0 {
        let later = gpus.drop_first();
        law_no_reading_of_the_name_no_load(later, name);
        assert(forall|at: int| 0 <= at < later.len() ==> later[at] == gpus[at + 1]);
        if forall|at: int| 0 <= at < later.len() ==> (#[trigger] later[at]).name@ != name {
            assert forall|at: int| 0 < at < gpus.len() implies (#[trigger] gpus[at]).name@
                != name by {
                assert(later[at - 1].name@ != name);
            }
        } else {
            let at = choose|at: int|
                0 <= at < later.len() && (#[trigger] later[at]).name@ == name;
            assert(gpus[at + 1].name@ == name);
        }
    }
}

/// A load that counts is that of a reading which bears the name: its position is returned, and
/// none before it bears the name.
pub proof fn law_load_is_of_the_name<S>(gpus: Seq<GpuReading<S>>, name: Seq<char>) -> (at: int)
    requires
        sample_of(gpus, name) is Some,
    ensures
        0 <= at < gpus.len(),
        gpus[at].name@ == name,
        sample_of(gpus, name) == Some(gpus[at].utilization),
        forall|earlier: int| 0 <= earlier < at ==> (#[trigger] gpus[earlier]).name@ != name,
    decreases gpus.len(),
{
    if gpus[0].name@ == name {
        0
    } else {
        let later = gpus.drop_first();
        let at = law_load_is_of_the_name(later, name) + 1;
        assert forall|earlier: int| 0 <= earlier < at implies (#[trigger] gpus[earlier]).name@
            != name by {
            if earlier > 0 {
                assert(later[earlier - 1] == gpus[earlier]);
            }
        }
        at
    }
}

/// A model of which one slot is at work, whichever it is, is not unloaded, however long ago it
/// was last seen at work. It counts as active now, unless the listing goes on to name it once
/// more as not in memory, and the refresh goes on with the other models.
pub proof fn law_model_at_work_is_left_alone(
    config: Config,
    memory: Memory,
    model: Model,
    timeout: u64,
    rest: Seq<Model>,
    slots: Seq<Slot>,
    now: u64,
    at: int,
)
    requires
        0 <= at < slots.len(),
        slots[at].is_processing,
    ensures
        ({
            let step = next_step(
                config,
                memory,
                PhaseView::Probing { model, timeout, rest },
                EventView::Slots(slots),
                now,
            );
            &&& !(step.action is Unload)
            &&& !(step.action is Fail)
            &&& !(step.phase is Unloading)
            &&& step == advance(
                config,
                (Memory {
                    last_model_loaded: memory.last_model_loaded,
                    models_last_active: memory.models_last_active.insert(model.id@, now),
                }),
                rest,
                now,
            )
            &&& (forall|i: int|
                0 <= i < rest.len() && (#[trigger] rest[i]).id@ == model.id@ ==> {
                    ||| rest[i].status.value == ModelStatusValue::Loaded
                    ||| rest[i].status.value == ModelStatusValue::Sleeping
                }) ==> {
                &&& step.memory.models_last_active.contains_key(model.id@)
                &&& step.memory.models_last_active[model.id@] == now
            }
        }),
{
    assert(is_busy(slots));
    let seen = memory.slots_seen(model.id@, true, now);
    lemma_advance_probes_loaded(config, seen, rest, now);
    lemma_looked_at(config, seen, rest, now);
    law_models_not_in_memory_are_forgotten(config, seen, rest, now, model.id@);
}

/// A model that is known and of which no slot is at work is unloaded if and only if more whole
/// seconds than its limit have passed since it was last active. Asking for its slots does not
/// make it active: what is remembered of it stays as it was, unless the listing goes on to
/// name it once more as not in memory.
pub proof fn law_idle_model_waits_for_its_limit(
    config: Config,
    memory: Memory,
    model: Model,
    timeout: u64,
    rest: Seq<Model>,
    slots: Seq<Slot>,
    now: u64,
)
    requires
        forall|i: int| 0 <= i < slots.len() ==> !(#[trigger] slots[i]).is_processing,
        memory.models_last_active.contains_key(model.id@),
    ensures
        ({
            let step = next_step(
                config,
                memory,
                PhaseView::Probing { model, timeout, rest },
                EventView::Slots(slots),
                now,
            );
            let since = memory.models_last_active[model.id@];
            &&& step.action is Unload <==> now - since >= (timeout + 1) * 1_000_000_000
            &&& step.action is Unload ==> {
                &&& step.action == ActionView::Unload(
                    unload_call(config.target_host@, config.target_port, model.id@),
                )
                &&& step.phase == (PhaseView::Unloading { id: model.id@, rest })
                &&& step.memory == memory
            }
            &&& !(step.action is Unload) ==> step == advance(config, memory, rest, now)
            &&& (forall|i: int|
                0 <= i < rest.len() && (#[trigger] rest[i]).id@ == model.id@ ==> {
                    ||| rest[i].status.value == ModelStatusValue::Loaded
                    ||| rest[i].status.value == ModelStatusValue::Sleeping
                }) ==> {
                &&& step.memory.models_last_active.contains_key(model.id@)
                &&& step.memory.models_last_active[model.id@] == since
            }
        }),
{
    assert(!is_busy(slots));
    lemma_advance_probes_loaded(config, memory, rest, now);
    lemma_looked_at(config, memory, rest, now);
    law_models_not_in_memory_are_forgotten(config, memory, rest, now, model.id@);
}

/// A model that has just been loaded counts as active from now on, whatever its slots are, and
/// the refresh goes on with the other models.
pub proof fn law_new_model_counts_as_active(
    config: Config,
    memory: Memory,
    model: Model,
    timeout: u64,
    rest: Seq<Model>,
    slots: Seq<Slot>,
    now: u64,
)
    requires
        !memory.models_last_active.contains_key(model.id@),
    ensures
        next_step(
            config,
            memory,
            PhaseView::Probing { model, timeout, rest },
            EventView::Slots(slots),
            now,
        ) == advance(
            config,
            (Memory {
                last_model_loaded: memory.last_model_loaded,
                models_last_active: memory.models_last_active.insert(model.id@, now),
            }),
            rest,
            now,
        ),
{
}

/// All other answers that are awaited let the refresh go on with the models ahead. They change
/// nothing that is remembered, except that a model which was unloaded is forgotten.
pub proof fn law_awaited_answers_go_on(
    config: Config,
    memory: Memory,
    model: Model,
    timeout: u64,
    id: Seq<char>,
    models: Seq<Model>,
    now: u64,
)
    ensures
        next_step(config, memory, PhaseView::Listing, EventView::Models(models), now) == advance(
            config,
            memory,
            models,
            now,
        ),
        next_step(
            config,
            memory,
            PhaseView::Probing { model, timeout, rest: models },
            EventView::SlotsUnreadable,
            now,
        ) == advance(config, memory, models, now),
        next_step(
            config,
            memory,
            PhaseView::Unloading { id, rest: models },
            EventView::NotUnloaded,
            now,
        ) == advance(config, memory, models, now),
        next_step(
            config,
            memory,
            PhaseView::Unloading { id, rest: models },
            EventView::Unloaded,
            now,
        ) == advance(
            config,
            (Memory {
                last_model_loaded: memory.last_model_loaded,
                models_last_active: memory.models_last_active.remove(id),
            }),
            models,
            now,
        ),
{
}

/// An answer that is not awaited ends the refresh as a failure, and is not remembered.
pub proof fn law_answer_out_of_turn_fails(
    config: Config,
    memory: Memory,
    phase: PhaseView,
    event: EventView,
    now: u64,
)
    requires
        phase is Listing ==> !(event is Models),
        phase is Probing ==> !(event is Slots) && !(event is SlotsUnreadable),
        phase is Unloading ==> !(event is Unloaded) && !(event is NotUnloaded),
    ensures
        next_step(config, memory, phase, event, now).memory == memory,
        next_step(config, memory, phase, event, now).phase is Closed,
        next_step(config, memory, phase, event, now).action is Fail,
{
}

/// The slots of the first of `models` that is loaded and has a limit are asked for, with the
/// limit that the settings give it, and those behind it are still to be looked at. It opens
/// the grace period. Of the models up to it, those that are not in memory are forgotten, and
/// all else is remembered as before.
pub proof fn law_first_loaded_model_with_a_limit_is_asked(
    config: Config,
    memory: Memory,
    models: Seq<Model>,
    now: u64,
    at: int,
    id: Seq<char>,
)
    requires
        0 <= at < models.len(),
        models[at].status.value == ModelStatusValue::Loaded,
        config.idle_unload_timeouts@.contains_key(models[at].id@)
            || config.default_unload_timeout is Some,
        forall|i: int|
            0 <= i < at && (#[trigger] models[i]).status.value == ModelStatusValue::Loaded ==> {
                &&& !config.idle_unload_timeouts@.contains_key(models[i].id@)
                &&& config.default_unload_timeout is None
            },
    ensures
        ({
            let step = advance(config, memory, models, now);
            let after = step.memory.models_last_active;
            let own = config.idle_unload_timeouts@;
            let name = models[at].id@;
            &&& step.phase == (PhaseView::Probing {
                model: models[at],
                timeout: if own.contains_key(name) {
                    own[name]
                } else {
                    config.default_unload_timeout->0
                },
                rest: models.skip(at + 1),
            })
            &&& step.action == ActionView::ListSlots(
                (slots_address(config.target_host@, config.target_port, name), 3600),
            )
            &&& step.memory.last_model_loaded == Some(now)
            &&& (exists|i: int|
                0 <= i < at && (#[trigger] models[i]).id@ == id && {
                    ||| models[i].status.value == ModelStatusValue::Unloaded
                    ||| models[i].status.value == ModelStatusValue::Loading
                }) ==> !after.contains_key(id)
            &&& !(exists|i: int|
                0 <= i < at && (#[trigger] models[i]).id@ == id && {
                    ||| models[i].status.value == ModelStatusValue::Unloaded
                    ||| models[i].status.value == ModelStatusValue::Loading
                }) ==> {
                &&& after.contains_key(id) == memory.models_last_active.contains_key(id)
                &&& after.contains_key(id) ==> after[id] == memory.models_last_active[id]
            }
        }),
    decreases models.len(),
{
    if at > 0 {
        let later = models.drop_first();
        assert(forall|i: int| 0 <= i < later.len() ==> later[i] == models[i + 1]);
        assert(later.skip(at) == models.skip(at + 1));
        law_first_loaded_model_with_a_limit_is_asked(
            config,
            memory.seen(models[0], now),
            later,
            now,
            at - 1,
            id,
        );
    } else {
        assert(models.drop_first() == models.skip(1));
    }
    let step = advance(config, memory, models, now);
    assert(looked_at(models, step.phase) == at + 1);
    assert(!is_out(models[at]));
    law_models_not_in_memory_are_forgotten(config, memory, models, now, id);
    if listed_out(models, at + 1, id) {
        let i = choose|i: int|
            0 <= i < at + 1 && is_out(#[trigger] models[i]) && models[i].id@ == id;
        assert(models[i].id@ == id);
    }
}

/// If none of `models` is loaded and has a limit, the refresh is complete. The grace period
/// opens if one of them is loaded or loading. Those that are not in memory are forgotten, and
/// all else is remembered as before.
pub proof fn law_refresh_without_a_model_to_ask_is_complete(
    config: Config,
    memory: Memory,
    models: Seq<Model>,
    now: u64,
    id: Seq<char>,
)
    requires
        forall|i: int|
            0 <= i < models.len() && (#[trigger] models[i]).status.value
                == ModelStatusValue::Loaded ==> {
                &&& !config.idle_unload_timeouts@.contains_key(models[i].id@)
                &&& config.default_unload_timeout is None
            },
    ensures
        ({
            let step = advance(config, memory, models, now);
            let after = step.memory.models_last_active;
            &&& step.phase is Closed
            &&& step.action is Done
            &&& (exists|i: int|
                0 <= i < models.len() && {
                    ||| (#[trigger] models[i]).status.value == ModelStatusValue::Loaded
                    ||| models[i].status.value == ModelStatusValue::Loading
                }) ==> step.memory.last_model_loaded == Some(now)
            &&& (forall|i: int|
                0 <= i < models.len() ==> {
                    ||| (#[trigger] models[i]).status.value == ModelStatusValue::Unloaded
                    ||| models[i].status.value == ModelStatusValue::Sleeping
                }) ==> step.memory.last_model_loaded == memory.last_model_loaded
            &&& (exists|i: int|
                0 <= i < models.len() && (#[trigger] models[i]).id@ == id && {
                    ||| models[i].status.value == ModelStatusValue::Unloaded
                    ||| models[i].status.value == ModelStatusValue::Loading
                }) ==> !after.contains_key(id)
            &&& !(exists|i: int|
                0 <= i < models.len() && (#[trigger] models[i]).id@ == id && {
                    ||| models[i].status.value == ModelStatusValue::Unloaded
                    ||| models[i].status.value == ModelStatusValue::Loading
                }) ==> {
                &&& after.contains_key(id) == memory.models_last_active.contains_key(id)
                &&& after.contains_key(id) ==> after[id] == memory.models_last_active[id]
            }
        }),
    decreases models.len(),
{
    if models.len() > 0 {
        let later = models.drop_first();
        assert(forall|i: int| 0 <= i < later.len() ==> later[i] == models[i + 1]);
        assert(models[0].status.value == ModelStatusValue::Loaded ==> probe_timeout(
            config,
            models[0],
        ) is None);
        law_refresh_without_a_model_to_ask_is_complete(
            config,
            memory.seen(models[0], now),
            later,
            now,
            id,
        );
    }
    law_loaded_models_open_the_grace_period(config, memory, models, now);
    law_models_not_in_memory_are_forgotten(config, memory, models, now, id);
    if exists|i: int|
        0 <= i < models.len() && {
            ||| (#[trigger] models[i]).status.value == ModelStatusValue::Loaded
            ||| models[i].status.value == ModelStatusValue::Loading
        } {
        let i = choose|i: int|
            0 <= i < models.len() && {
                ||| (#[trigger] models[i]).status.value == ModelStatusValue::Loaded
                ||| models[i].status.value == ModelStatusValue::Loading
            };
        assert(is_up(models[i]));
    }
    if listed_out(models, models.len() as int, id) {
        let i = choose|i: int|
            0 <= i < models.len() && is_out(#[trigger] models[i]) && models[i].id@ == id;
        assert(models[i].id@ == id);
    }
}

/// No more models are looked at than there are.
proof fn lemma_looked_at(config: Config, memory: Memory, models: Seq<Model>, now: u64)
    ensures
        0 <= looked_at(models, advance(config, memory, models, now).phase) <= models.len(),
{
    law_loaded_models_open_the_grace_period(config, memory, models, now);
}

/// What is remembered of the models is what the monitor keeps.
pub proof fn law_monitor_remembers_what_it_keeps<S: Copy>(monitor: ResourceMonitor<S>)
    ensures
        monitor.memory().last_model_loaded == monitor.last_model_loaded,
        monitor.memory().models_last_active == monitor.models_last_active@,
{
}

/// Answers are taken as they come: all models of a listing and all slots, in order.
pub proof fn law_answers_are_taken_as_they_come(models: ModelsResponse, slots: Vec<Slot>)
    ensures
        Event::Models(models)@ == EventView::Models(models.data@),
        Event::Slots(slots)@ == EventView::Slots(slots@),
        Event::SlotsUnreadable@ == EventView::SlotsUnreadable,
        Event::Unloaded@ == EventView::Unloaded,
        Event::NotUnloaded@ == EventView::NotUnloaded,
        Event::Failed@ == EventView::Failed,
{
}

/// How far a refresh has come and what is to be done next are told in full.
pub proof fn law_phases_and_actions_are_told_in_full(
    model: Model,
    timeout: u64,
    id: String,
    rest: Vec<Model>,
    call: Call,
    unload: UnloadCall,
)
    ensures
        Phase::Listing@ == PhaseView::Listing,
        (Phase::Probing { model, timeout, rest })@ == (PhaseView::Probing {
            model,
            timeout,
            rest: rest@,
        }),
        (Phase::Unloading { id, rest })@ == (PhaseView::Unloading { id: id@, rest: rest@ }),
        Phase::Closed@ == PhaseView::Closed,
        Action::ListModels(call)@ == ActionView::ListModels((call.url@, call.timeout_secs)),
        Action::ListSlots(call)@ == ActionView::ListSlots((call.url@, call.timeout_secs)),
        Action::Unload(unload)@ == ActionView::Unload(unload@),
        Action::Done@ == ActionView::Done,
        Action::Fail@ == ActionView::Fail,
{
}

} // verus!
