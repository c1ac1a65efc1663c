//! The most recent load readings.
use crate::clock::{elapsed_secs, secs_between};
use std::collections::VecDeque;
use vstd::prelude::*;

verus! {

/// Those of `samples` that were taken less than `secs` whole seconds before `now`. A sample
/// comes with the clock reading at which it was taken.
pub open spec fn in_window<S>(samples: Seq<(u64, S)>, secs: u64, now: u64) -> Seq<(u64, S)> {
    samples.filter(|s: (u64, S)| secs_between(s.0, now) < secs)
}

/// A window of `secs` seconds after all of `readings` have come, one after the other.
pub open spec fn slid_all<S>(
    samples: Seq<(u64, S)>,
    secs: u64,
    readings: Seq<(u64, S)>,
) -> Seq<(u64, S)>
    decreases readings.len(),
{
    if readings.len() == 0 {
        samples
    } else {
        in_window(
            slid_all(samples, secs, readings.drop_last()).push(readings.last()),
            secs,
            readings.last().0,
        )
    }
}

/// The samples of a load over the last seconds, each with the clock reading at which it was
/// taken.
pub struct SampleWindow<S> {
    pub samples: VecDeque<(u64, S)>,
    /// How long in seconds the window is.
    pub size: usize,
}

impl<S> View for SampleWindow<S> {
    type V = Seq<(u64, S)>;

    open spec fn view(&self) -> Seq<(u64, S)> {
        self.samples@
    }
}

impl<S> SampleWindow<S> {
    /// There is a sample, unless the window is of no length, and none is older than the
    /// newest by as much as the window is long.
    pub open spec fn wf(self) -> bool {
        &&& self.size > 0 ==> self@.len() > 0
        &&& forall|i: int|
            0 <= i < self@.len() ==> secs_between((#[trigger] self@[i]).0, self@.last().0)
                < self.size
    }
}

impl<S: Copy> SampleWindow<S> {
    /// A window of `size` seconds, with as many samples, all of them `sample` and taken at
    /// `now`.
    pub fn filled(size: usize, sample: S, now: u64) -> (window: Self)
        ensures
            window.wf(),
            window.size == size,
            window@ == Seq::new(size as nat, |i: int| (now, sample)),
    {
        let mut samples: VecDeque<(u64, S)> = VecDeque::new();
        let mut i: usize = 0;
        while i < size
            invariant
                i <= size,
                samples@ == Seq::new(i as nat, |k: int| (now, sample)),
            decreases size - i,
        {
            samples.push_back((now, sample));
            i += 1;
            assert(samples@ == Seq::new(i as nat, |k: int| (now, sample)));
        }
        Self { samples, size }
    }

    /// Takes a sample that was taken at `now` into the window, and drops those that have
    /// become too old for it.
    pub fn slide(&mut self, sample: S, now: u64)
        ensures
            final(self).wf(),
            final(self).size == old(self).size,
            final(self)@ == in_window(old(self)@.push((now, sample)), old(self).size as u64, now),
    {
        self.samples.push_back((now, sample));
        let secs: u64 = self.size as u64;
        let mut kept: VecDeque<(u64, S)> = VecDeque::new();
        let mut i: usize = 0;
        proof {
            lemma_window_of_none::<S>(secs, now);
            assert(self.samples@.take(0) == Seq::<(u64, S)>::empty());
        }
        while i < self.samples.len()
            invariant
                i <= self.samples@.len(),
                self.samples@ == old(self)@.push((now, sample)),
                self.size == old(self).size,
                secs == self.size as u64,
                kept@ == in_window(self.samples@.take(i as int), secs, now),
            decreases self.samples.len() - i,
        {
            let kept_sample = self.samples[i];
            if elapsed_secs(kept_sample.0, now) < secs {
                kept.push_back(kept_sample);
            }
            proof {
                lemma_window_of_one_more(self.samples@.take(i as int), kept_sample, secs, now);
                assert(self.samples@.take(i + 1) == self.samples@.take(i as int).push(kept_sample));
            }
            i += 1;
        }
        assert(self.samples@.take(i as int) == self.samples@);
        self.samples = kept;
        proof {
            if secs > 0 {
                law_newest_sample_is_kept(old(self)@, sample, secs, now);
            }
            law_window_goes_by_age(old(self)@.push((now, sample)), secs, now);
        }
    }
}

proof fn lemma_window_of_none<S>(secs: u64, now: u64)
    ensures
        in_window(Seq::<(u64, S)>::empty(), secs, now) == Seq::<(u64, S)>::empty(),
{
    reveal(Seq::filter);
}

proof fn lemma_window_of_one_more<S>(
    samples: Seq<(u64, S)>,
    sample: (u64, S),
    secs: u64,
    now: u64,
)
    ensures
        in_window(samples.push(sample), secs, now) == if secs_between(sample.0, now) < secs {
            in_window(samples, secs, now).push(sample)
        } else {
            in_window(samples, secs, now)
        },
{
    reveal(Seq::filter);
    assert(samples.push(sample).drop_last() == samples);
}

/// A window holds no sample as old as it is long or older, and all that are younger.
pub proof fn law_window_goes_by_age<S>(samples: Seq<(u64, S)>, secs: u64, now: u64)
    ensures
        forall|i: int|
            #![trigger in_window(samples, secs, now)[i]]
            0 <= i < in_window(samples, secs, now).len() ==> {
                &&& secs_between(in_window(samples, secs, now)[i].0, now) < secs
                &&& samples.contains(in_window(samples, secs, now)[i])
            },
        forall|i: int|
            0 <= i < samples.len() && secs_between((#[trigger] samples[i]).0, now) < secs
                ==> in_window(samples, secs, now).contains(samples[i]),
    decreases samples.len(),
{
    if samples.len() == 0 {
        lemma_window_of_none::<S>(secs, now);
        assert(samples == Seq::<(u64, S)>::empty());
    } else {
        let before = samples.drop_last();
        let window = in_window(samples, secs, now);
        let earlier = in_window(before, secs, now);
        law_window_goes_by_age(before, secs, now);
        lemma_window_of_one_more(before, samples.last(), secs, now);
        assert(samples == before.push(samples.last()));
        assert forall|i: int| 0 <= i < window.len() implies {
            &&& secs_between((#[trigger] window[i]).0, now) < secs
            &&& samples.contains(window[i])
        } by {
            if i < earlier.len() {
                assert(window[i] == earlier[i]);
                let k = choose|k: int| 0 <= k < before.len() && before[k] == earlier[i];
                assert(samples[k] == window[i]);
            } else {
                assert(window[i] == samples[samples.len() - 1]);
            }
        }
        assert forall|i: int|
            0 <= i < samples.len() && secs_between(
                (#[trigger] samples[i]).0,
                now,
            ) < secs implies window.contains(samples[i]) by {
            if i < before.len() {
                assert(before[i] == samples[i]);
                let k = choose|k: int| 0 <= k < earlier.len() && earlier[k] == before[i];
                assert(window[k] == samples[i]);
            } else {
                assert(window[window.len() - 1] == samples[i]);
            }
        }
    }
}

/// The sample that has just come is in the window, and is its newest, unless the window is
/// of no length.
pub proof fn law_newest_sample_is_kept<S>(samples: Seq<(u64, S)>, sample: S, secs: u64, now: u64)
    requires
        secs > 0,
    ensures
        in_window(samples.push((now, sample)), secs, now).len() > 0,
        in_window(samples.push((now, sample)), secs, now).last() == (now, sample),
{
    lemma_window_of_one_more(samples, (now, sample), secs, now);
}

/// As long as the clock does not run backwards, a window holds exactly those of all samples
/// that have ever come which were taken in the last `secs` seconds.
pub proof fn law_window_holds_the_last_seconds<S>(
    samples: Seq<(u64, S)>,
    secs: u64,
    readings: Seq<(u64, S)>,
)
    requires
        readings.len() > 0,
        forall|i: int, j: int| 0 <= i <= j < readings.len() ==> readings[i].0 <= readings[j].0,
    ensures
        slid_all(samples, secs, readings) == in_window(
            samples + readings,
            secs,
            readings.last().0,
        ),
    decreases readings.len(),
{
    let before = readings.drop_last();
    let now = readings.last().0;
    assert(samples + readings == (samples + before).push(readings.last()));
    if before.len() == 0 {
        assert(samples + before == samples);
        assert(slid_all(samples, secs, before) == samples);
    } else {
        law_window_holds_the_last_seconds(samples, secs, before);
        let earlier = in_window(samples + before, secs, before.last().0);
        lemma_window_of_window(samples + before, secs, before.last().0, now);
        lemma_window_of_one_more(earlier, readings.last(), secs, now);
        lemma_window_of_one_more(samples + before, readings.last(), secs, now);
    }
}

/// What has been dropped from a window would not be in it later either.
proof fn lemma_window_of_window<S>(samples: Seq<(u64, S)>, secs: u64, earlier: u64, now: u64)
    requires
        earlier <= now,
    ensures
        in_window(in_window(samples, secs, earlier), secs, now) == in_window(samples, secs, now),
    decreases samples.len(),
{
    if samples.len() == 0 {
        lemma_window_of_none::<S>(secs, earlier);
        lemma_window_of_none::<S>(secs, now);
        assert(samples == Seq::<(u64, S)>::empty());
    } else {
        let before = samples.drop_last();
        let last = samples.last();
        lemma_window_of_window(before, secs, earlier, now);
        assert(samples == before.push(last));
        lemma_window_of_one_more(before, last, secs, earlier);
        lemma_window_of_one_more(before, last, secs, now);
        lemma_window_of_one_more(in_window(before, secs, earlier), last, secs, now);
        assert(secs_between(last.0, earlier) <= secs_between(last.0, now));
    }
}

/// A window is decided sample by sample, in the order in which they came: each stays for the
/// seconds that the window is long, to the nanosecond, and then goes.
pub proof fn law_samples_stay_for_their_time<S>(
    samples: Seq<(u64, S)>,
    sample: (u64, S),
    secs: u64,
    now: u64,
)
    ensures
        in_window(Seq::<(u64, S)>::empty(), secs, now) == Seq::<(u64, S)>::empty(),
        secs > 0 && now - sample.0 < secs * 1_000_000_000 ==> in_window(
            samples.push(sample),
            secs,
            now,
        ) == in_window(samples, secs, now).push(sample),
        secs == 0 || now - sample.0 >= secs * 1_000_000_000 ==> in_window(
            samples.push(sample),
            secs,
            now,
        ) == in_window(samples, secs, now),
{
    lemma_window_of_none::<S>(secs, now);
    lemma_window_of_one_more(samples, sample, secs, now);
}

/// What is known of a window is what it holds.
pub proof fn law_window_shows_its_samples<S>(window: SampleWindow<S>)
    ensures
        window@ == window.samples@,
{
}

} // verus!
