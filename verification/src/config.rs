//! The settings of the proxy.
use crate::haywire::HaywireDetector;
use vstd::hash_map::StringHashMap;
use vstd::prelude::*;

verus! {

/// The settings that the proxy's decisions depend on. The thresholds of the load averages
/// stay with the averages themselves.
pub struct Config {
    pub host: String,
    pub port: u16,
    pub target_host: String,
    pub target_port: u16,
    /// Which GPU to use
    pub gpu: String,
    /// How long in seconds the load average window is
    pub load_average_window: usize,
    pub model_loaded_grace: u64,
    /// Whether to enable haywire detection (repeated token patterns)
    pub haywire_detection_enabled: bool,
    /// Minimum number of consecutive identical characters before flagging as haywire
    pub haywire_char_repeats: usize,
    pub idle_unload_timeouts: StringHashMap<u64>,
    pub default_unload_timeout: Option<u64>,
}

/// How long a model may idle, in seconds: its own limit if it has one, else the default
/// limit if there is one, else for ever.
pub open spec fn idle_limit(
    own: Map<Seq<char>, u64>,
    default: Option<u64>,
    model: Seq<char>,
) -> Option<u64> {
    if own.contains_key(model) {
        Some(own[model])
    } else {
        default
    }
}

/// The limits that `entries` give to models; the last entry for a model counts.
pub open spec fn limits_in(entries: Seq<(String, u64)>) -> Map<Seq<char>, u64>
    decreases entries.len(),
{
    if entries.len() == 0 {
        Map::empty()
    } else {
        limits_in(entries.drop_last()).insert(entries.last().0@, entries.last().1)
    }
}

/// The idle limits of models, from pairs of a model and its limit in seconds.
pub fn idle_limits(entries: Vec<(String, u64)>) -> (limits: StringHashMap<u64>)
    ensures
        limits@ == limits_in(entries@),
{
    let mut limits: StringHashMap<u64> = StringHashMap::new();
    let mut i: usize = 0;
    while i < entries.len()
        invariant
            i <= entries@.len(),
            limits@ == limits_in(entries@.take(i as int)),
        decreases entries.len() - i,
    {
        limits.insert(entries[i].0.clone(), entries[i].1);
        assert(entries@.take(i + 1).drop_last() == entries@.take(i as int));
        i += 1;
    }
    assert(entries@.take(entries@.len() as int) == entries@);
    limits
}

impl Config {
    /// The number of repeats that counts as haywire where the settings give none.
    pub fn default_haywire_char_repeats() -> (repeats: usize)
        ensures
            repeats == 40,
    {
        40
    }

    /// How long `model` may idle, in seconds.
    pub open spec fn limit_for(self, model: Seq<char>) -> Option<u64> {
        idle_limit(self.idle_unload_timeouts@, self.default_unload_timeout, model)
    }

    /// How long `model` may idle before it is unloaded, in seconds.
    pub fn idle_unload_timeout(&self, model: &str) -> (timeout: Option<u64>)
        ensures
            timeout == self.limit_for(model@),
    {
        match self.idle_unload_timeouts.get(model) {
            Some(timeout) => Some(*timeout),
            None => self.default_unload_timeout,
        }
    }

    /// The detector that responses are held against, if detection is enabled.
    pub fn haywire_detector(&self) -> (detector: Option<HaywireDetector>)
        ensures
            detector is Some <==> self.haywire_detection_enabled,
            detector matches Some(detector) ==> detector.char_repeats == self.haywire_char_repeats,
    {
        if self.haywire_detection_enabled {
            Some(HaywireDetector::new(self.haywire_char_repeats))
        } else {
            None
        }
    }
}

/// The limit of a model's own overrides the default, whatever that is.
pub proof fn law_own_limit_wins(own: Map<Seq<char>, u64>, default: Option<u64>, model: Seq<char>)
    requires
        own.contains_key(model),
    ensures
        idle_limit(own, default, model) == Some(own[model]),
{
}

/// A model may idle for as long as the settings say of it, and one of which they say nothing
/// for as long as the default, or for ever if there is none.
pub proof fn law_limits_come_from_the_settings(config: Config, model: Seq<char>)
    ensures
        config.idle_unload_timeouts@.contains_key(model) ==> config.limit_for(model) == Some(
            config.idle_unload_timeouts@[model],
        ),
        !config.idle_unload_timeouts@.contains_key(model) ==> config.limit_for(model)
            == config.default_unload_timeout,
{
}

/// The last entry for a model gives its limit.
pub proof fn law_last_entry_counts(entries: Seq<(String, u64)>, at: int)
    requires
        0 <= at < entries.len(),
        forall|later: int| at < later < entries.len() ==> entries[later].0@ != entries[at].0@,
    ensures
        limits_in(entries).contains_key(entries[at].0@),
        limits_in(entries)[entries[at].0@] == entries[at].1,
    decreases entries.len(),
{
    if at < entries.len() - 1 {
        law_last_entry_counts(entries.drop_last(), at);
        assert(entries.last().0@ != entries[at].0@);
    }
}

/// A model without an entry has no limit of its own.
pub proof fn law_no_entry_no_limit(entries: Seq<(String, u64)>, model: Seq<char>)
    requires
        forall|i: int| 0 <= i < entries.len() ==> (#[trigger] entries[i]).0@ != model,
    ensures
        !limits_in(entries).contains_key(model),
    decreases entries.len(),
{
    if entries.len() > 0 {
        law_no_entry_no_limit(entries.drop_last(), model);
        assert(entries.last().0@ != model);
    }
}

} // verus!
