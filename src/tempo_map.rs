//! The tempo map: tempo and time-signature changes, and conversions between
//! ticks, samples, beats and bars.
//!
//! Beat quantities are exact. A tempo of `m` thousandths of a beat per minute,
//! held for `n` ticks at `rate` ticks per second, covers `n * m` beat units,
//! and one beat is `60_000 * rate` beat units.
use crate::tempo::{Tempo, TimeSignature, DEFAULT_MILLI_BPM};
use crate::time::{
    clamp_ticks, div_round, round_div, saturate_ticks, Beats, TimePosition, MAX_TICKS,
};
use vstd::arithmetic::div_mod::{
    lemma_div_by_multiple, lemma_div_multiples_vanish_fancy, lemma_fundamental_div_mod,
    lemma_mod_multiples_basic, lemma_mod_multiples_vanish,
};
use vstd::prelude::*;

verus! {

/// A value that takes effect at `position`.
#[derive(Clone, Copy, Debug)]
pub struct Change<T> {
    pub position: TimePosition,
    pub value: T,
}

/// The tick position of a change.
pub open spec fn at<T>(c: Change<T>) -> int {
    c.position.position_ticks as int
}

/// Positions strictly increase.
pub open spec fn changes_sorted<T>(s: Seq<Change<T>>) -> bool {
    forall|i: int, j: int| 0 <= i < j < s.len() ==> at(s[i]) < at(s[j])
}

/// Positions strictly increase and the first change stands at zero.
pub open spec fn changes_wf<T>(s: Seq<Change<T>>) -> bool {
    &&& s.len() > 0
    &&& at(s[0]) == 0
    &&& changes_sorted(s)
}

/// A well-formed list of tempo changes, every tempo above zero.
pub open spec fn tempos_wf(s: Seq<Change<Tempo>>) -> bool {
    &&& changes_wf(s)
    &&& forall|i: int| 0 <= i < s.len() ==> s[i].value.milli_bpm > 0
}

/// A well-formed list of time-signature changes, every bar at least one beat long.
pub open spec fn signatures_wf(s: Seq<Change<TimeSignature>>) -> bool {
    &&& changes_wf(s)
    &&& forall|i: int| 0 <= i < s.len() ==> s[i].value.numerator > 0
}

/// How many changes stand at or before `p` (in a sorted list).
pub open spec fn count_at_or_before<T>(s: Seq<Change<T>>, p: int) -> int
    decreases s.len(),
{
    if s.len() == 0 {
        0
    } else if at(s.last()) <= p {
        s.len() as int
    } else {
        count_at_or_before(s.drop_last(), p)
    }
}

/// The value of the latest change at or before `p`.
pub open spec fn value_at<T>(s: Seq<Change<T>>, p: int) -> T {
    s[count_at_or_before(s, p) - 1].value
}

/// `s` with `c` put in position order, replacing a change at the same position.
pub open spec fn with_change<T>(s: Seq<Change<T>>, c: Change<T>) -> Seq<Change<T>> {
    let i = count_at_or_before(s, at(c));
    if i > 0 && at(s[i - 1]) == at(c) {
        s.update(i - 1, c)
    } else {
        s.insert(i, c)
    }
}

/// Beat units from zero to `p`: the tempo (in thousandths of a beat per minute)
/// summed over every tick before `p`.
pub open spec fn beat_units(s: Seq<Change<Tempo>>, p: int) -> int
    decreases s.len(),
{
    if s.len() == 0 {
        0
    } else if at(s.last()) <= p {
        beat_units(s.drop_last(), at(s.last())) + (p - at(s.last())) * s.last().value.milli_bpm
    } else {
        beat_units(s.drop_last(), p)
    }
}

/// The tick position at which `t` beat units have passed, rounded to the nearest tick.
pub open spec fn ticks_for_units(s: Seq<Change<Tempo>>, t: int) -> int
    decreases s.len(),
{
    if s.len() == 0 {
        0
    } else if beat_units(s, at(s.last())) <= t {
        at(s.last()) + round_div(t - beat_units(s, at(s.last())), s.last().value.milli_bpm as int)
    } else {
        ticks_for_units(s.drop_last(), t)
    }
}

/// Whole bars in the completed time-signature segments among the first `j`
/// signature changes, and the beat units those bars cover.
pub open spec fn completed_bars(
    t: Seq<Change<Tempo>>,
    sg: Seq<Change<TimeSignature>>,
    j: nat,
    unit: int,
) -> (int, int)
    decreases j,
{
    if j <= 1 || j > sg.len() {
        (0, 0)
    } else {
        let prev = completed_bars(t, sg, (j - 1) as nat, unit);
        let seg = beat_units(t, at(sg[j - 1])) - beat_units(t, at(sg[j - 2]));
        let bar = sg[j - 2].value.numerator * unit;
        (prev.0 + seg / bar, prev.1 + (seg / bar) * bar)
    }
}

/// Bars and the beat units into the current bar at `p`: whole bars are counted
/// segment by segment with each segment's signature, and what is left over is
/// divided into bars of the signature in effect at `p`.
pub open spec fn bars_and_units(
    t: Seq<Change<Tempo>>,
    sg: Seq<Change<TimeSignature>>,
    p: int,
    unit: int,
) -> (int, int) {
    let k = count_at_or_before(sg, p);
    let done = completed_bars(t, sg, k as nat, unit);
    let rest = beat_units(t, p) - done.1;
    let bar = sg[k - 1].value.numerator * unit;
    (done.0 + rest / bar, rest % bar)
}

proof fn lemma_count_at<T>(s: Seq<Change<T>>, k: int, p: int)
    requires
        changes_sorted(s),
        0 <= k < s.len(),
        at(s[k]) <= p,
        k + 1 == s.len() || at(s[k + 1]) > p,
    ensures
        count_at_or_before(s, p) == k + 1,
    decreases s.len(),
{
    if k + 1 < s.len() {
        assert(at(s.last()) > p);
        lemma_count_at(s.drop_last(), k, p);
    }
}

proof fn lemma_count_exists<T>(s: Seq<Change<T>>, p: int)
    requires
        changes_wf(s),
        p >= 0,
    ensures
        1 <= count_at_or_before(s, p) <= s.len(),
        at(s[count_at_or_before(s, p) - 1]) <= p,
        count_at_or_before(s, p) == s.len() || at(s[count_at_or_before(s, p)]) > p,
    decreases s.len(),
{
    if at(s.last()) > p {
        assert(s.len() > 1);
        let d = s.drop_last();
        assert(changes_wf(d));
        lemma_count_exists(d, p);
    }
}

proof fn lemma_units_prefix(s: Seq<Change<Tempo>>, k: int, p: int)
    requires
        changes_sorted(s),
        0 <= k <= s.len(),
        k == s.len() || at(s[k]) > p,
    ensures
        beat_units(s, p) == beat_units(s.take(k), p),
    decreases s.len() - k,
{
    if k == s.len() {
        assert(s.take(k) =~= s);
    } else {
        lemma_units_prefix(s, k + 1, p);
        assert(s.take(k + 1).drop_last() =~= s.take(k));
    }
}

proof fn lemma_units_bounds(s: Seq<Change<Tempo>>, p: int)
    requires
        p >= 0,
    ensures
        0 <= beat_units(s, p) <= p * (u32::MAX as int),
    decreases s.len(),
{
    if s.len() > 0 {
        let l = at(s.last());
        let m = s.last().value.milli_bpm as int;
        if l <= p {
            lemma_units_bounds(s.drop_last(), l);
            assert(0 <= (p - l) * m <= (p - l) * (u32::MAX as int)) by (nonlinear_arith)
                requires
                    0 <= p - l,
                    0 <= m <= u32::MAX,
            ;
            assert(l * (u32::MAX as int) + (p - l) * (u32::MAX as int) == p * (u32::MAX as int))
                by (nonlinear_arith);
        } else {
            lemma_units_bounds(s.drop_last(), p);
        }
    }
}

/// Beat units never decrease as the position grows.
pub proof fn lemma_units_monotone(s: Seq<Change<Tempo>>, p: int, q: int)
    requires
        0 <= p <= q,
    ensures
        beat_units(s, p) <= beat_units(s, q),
    decreases s.len(),
{
    if s.len() > 0 {
        let l = at(s.last());
        let m = s.last().value.milli_bpm as int;
        if l <= p {
            assert((p - l) * m <= (q - l) * m) by (nonlinear_arith)
                requires
                    0 <= p - l <= q - l,
                    m >= 0,
            ;
        } else if l <= q {
            lemma_units_monotone(s.drop_last(), p, l);
            assert((q - l) * m >= 0) by (nonlinear_arith)
                requires
                    q - l >= 0,
                    m >= 0,
            ;
        } else {
            lemma_units_monotone(s.drop_last(), p, q);
        }
    }
}

/// Within one tempo segment, beat units grow by the segment's tempo per tick.
pub proof fn lemma_units_segment(s: Seq<Change<Tempo>>, k: int, x: int)
    requires
        changes_sorted(s),
        0 <= k < s.len(),
        at(s[k]) <= x,
        k + 1 == s.len() || x <= at(s[k + 1]),
    ensures
        beat_units(s, x) == beat_units(s, at(s[k])) + (x - at(s[k])) * s[k].value.milli_bpm,
{
    let t1 = s.take(k + 1);
    let m = s[k].value.milli_bpm as int;
    assert(t1.last() == s[k]);
    assert(t1.drop_last() =~= s.take(k));
    assert((at(s[k]) - at(s[k])) * m == 0);
    assert(beat_units(t1, at(s[k])) == beat_units(s.take(k), at(s[k])));
    assert(beat_units(t1, x) == beat_units(s.take(k), at(s[k])) + (x - at(s[k])) * m);
    lemma_units_prefix(s, k + 1, at(s[k]));
    if k + 1 == s.len() || x < at(s[k + 1]) {
        lemma_units_prefix(s, k + 1, x);
    } else {
        let t2 = s.take(k + 2);
        let m2 = s[k + 1].value.milli_bpm as int;
        lemma_units_prefix(s, k + 2, x);
        assert(t2.drop_last() =~= t1);
        assert(t2.last() == s[k + 1]);
        assert(at(s[k + 1]) == x);
        assert((x - at(s[k + 1])) * m2 == 0);
        assert(beat_units(t2, x) == beat_units(t1, x) + (x - at(s[k + 1])) * m2);
    }
}

proof fn lemma_ticks_for_units(s: Seq<Change<Tempo>>, k: int, t: int)
    requires
        tempos_wf(s),
        0 <= k < s.len(),
        beat_units(s, at(s[k])) <= t,
        k + 1 == s.len() || beat_units(s, at(s[k + 1])) > t,
    ensures
        ticks_for_units(s, t) == at(s[k]) + round_div(
            t - beat_units(s, at(s[k])),
            s[k].value.milli_bpm as int,
        ),
    decreases s.len(),
{
    if k + 1 < s.len() {
        let d = s.drop_last();
        lemma_units_monotone(s, at(s[k + 1]), at(s.last()));
        assert(changes_wf(d));
        assert(tempos_wf(d));
        lemma_units_prefix(s, s.len() - 1, at(s[k]));
        assert(s.take(s.len() - 1) =~= d);
        if k + 2 < s.len() {
            lemma_units_prefix(s, s.len() - 1, at(s[k + 1]));
        }
        lemma_ticks_for_units(d, k, t);
    }
}

/// The round-half-up quotient of `a * u` by `d`, split at the whole part of `a / d`.
proof fn lemma_round_split(a: int, d: int, u: int)
    requires
        a >= 0,
        d > 0,
        u >= 0,
    ensures
        round_div(a * u, d) == (a / d) * u + round_div((a % d) * u, d),
{
    lemma_fundamental_div_mod(a, d);
    let q = a / d;
    let r = a % d;
    let y = r * u;
    assert(a * u == d * (q * u) + y) by (nonlinear_arith)
        requires
            a == d * q + r,
            y == r * u,
    ;
    lemma_fundamental_div_mod(y, d);
    assert(a * u == d * (q * u + y / d) + y % d) by (nonlinear_arith)
        requires
            a * u == d * (q * u) + y,
            y == d * (y / d) + y % d,
    ;
    lemma_div_multiples_vanish_fancy(q * u + y / d, y % d, d);
    lemma_mod_multiples_vanish(q * u + y / d, y % d, d);
    assert(0 <= y % d < d);
    vstd::arithmetic::div_mod::lemma_small_mod((y % d) as nat, d as nat);
}

/// Converting a position to beats and those beats back to a position gives the
/// position back, exactly: the beats that `position_to_beats` returns meet what
/// `beats_to_position` requires, and `beats_to_position` maps them to `p`.
pub proof fn lemma_beats_round_trip(map: &TempoMap, p: TimePosition)
    requires
        map.wf(),
    ensures
        ({
            let units = beat_units(map.tempos(), p.position_ticks as int);
            &&& 0 <= units <= u128::MAX
            &&& round_div(units * map.units_per_beat(), map.units_per_beat()) == units
            &&& clamp_ticks(ticks_for_units(map.tempos(), units)) == p.position_ticks
        }),
{
    let s = map.tempos();
    let x = p.position_ticks as int;
    let u = map.units_per_beat();
    map.lemma_wf();
    lemma_count_exists(s, x);
    let k = count_at_or_before(s, x) - 1;
    let m = s[k].value.milli_bpm as int;
    let base = beat_units(s, at(s[k]));
    lemma_units_segment(s, k, x);
    lemma_units_bounds(s, x);
    assert(x * (u32::MAX as int) <= u128::MAX) by (nonlinear_arith)
        requires
            0 <= x <= u64::MAX,
    ;
    let units = beat_units(s, x);
    lemma_units_monotone(s, at(s[k]), x);
    if k + 1 < s.len() {
        lemma_units_segment(s, k, at(s[k + 1]));
        assert((x - at(s[k])) * m < (at(s[k + 1]) - at(s[k])) * m) by (nonlinear_arith)
            requires
                x < at(s[k + 1]),
                m > 0,
        ;
    }
    lemma_ticks_for_units(s, k, units);
    lemma_div_by_multiple(x - at(s[k]), m);
    lemma_mod_multiples_basic(x - at(s[k]), m);
    lemma_div_by_multiple(units, u);
    lemma_mod_multiples_basic(units, u);
    assert(units * u == u * units) by (nonlinear_arith);
}

/// Doubling the tempo of one segment, with its tick span kept, doubles the beats
/// gained over any stretch of ticks inside it: a beat there takes half the ticks.
pub proof fn lemma_double_tempo_segment(s: Seq<Change<Tempo>>, k: int, x: int)
    requires
        tempos_wf(s),
        0 <= k < s.len(),
        at(s[k]) <= x,
        k + 1 == s.len() || x <= at(s[k + 1]),
        s[k].value.milli_bpm * 2 <= u32::MAX,
    ensures
        ({
            let doubled = with_change(
                s,
                Change { position: s[k].position, value: Tempo { milli_bpm: (s[k].value.milli_bpm * 2) as u32 } },
            );
            &&& tempos_wf(doubled)
            &&& beat_units(doubled, x) - beat_units(doubled, at(s[k])) == 2 * (beat_units(s, x)
                - beat_units(s, at(s[k])))
        }),
{
    let c = Change {
        position: s[k].position,
        value: Tempo { milli_bpm: (s[k].value.milli_bpm * 2) as u32 },
    };
    lemma_count_at(s, k, at(s[k]));
    let d = with_change(s, c);
    assert(d == s.update(k, c));
    assert(changes_sorted(d)) by {
        assert forall|i: int, j: int| 0 <= i < j < d.len() implies at(d[i]) < at(d[j]) by {
            assert(at(d[i]) == at(s[i]));
            assert(at(d[j]) == at(s[j]));
        }
    }
    assert(tempos_wf(d));
    lemma_units_segment(s, k, x);
    lemma_units_segment(d, k, x);
    assert((x - at(s[k])) * (s[k].value.milli_bpm * 2) == 2 * ((x - at(s[k]))
        * s[k].value.milli_bpm)) by (nonlinear_arith);
}

/// Scans a well-formed list of changes for the latest one at or before `p`.
fn change_index_at<T>(changes: &Vec<Change<T>>, p: u64) -> (k: usize)
    requires
        changes_wf(changes@),
    ensures
        k < changes@.len(),
        k + 1 == count_at_or_before(changes@, p as int),
        at(changes@[k as int]) <= p,
        k + 1 == changes@.len() || at(changes@[k + 1]) > p,
{
    let mut k: usize = 0;
    while k < changes.len() - 1 && changes[k + 1].position.position_ticks <= p
        invariant
            changes_wf(changes@),
            k < changes@.len(),
            at(changes@[k as int]) <= p,
        decreases changes@.len() - k,
    {
        k = k + 1;
    }
    proof {
        lemma_count_at(changes@, k as int, p as int);
    }
    k
}

/// Puts `c` into a well-formed list of changes, in position order, replacing a
/// change at the same position.
fn insert_change<T: Copy>(changes: &mut Vec<Change<T>>, c: Change<T>)
    requires
        changes_wf(old(changes)@),
    ensures
        final(changes)@ == with_change(old(changes)@, c),
        changes_wf(final(changes)@),
{
    let ghost s = changes@;
    let p = c.position.position_ticks;
    let mut i: usize = 0;
    while i < changes.len() && changes[i].position.position_ticks <= p
        invariant
            changes@ == s,
            changes_wf(s),
            i <= s.len(),
            forall|j: int| 0 <= j < i ==> at(s[j]) <= p,
        decreases s.len() - i,
    {
        i = i + 1;
    }
    proof {
        assert(at(s[0]) <= p);
        assert(i >= 1);
        lemma_count_at(s, i - 1, p as int);
    }
    if changes[i - 1].position.position_ticks == p {
        changes.set(i - 1, c);
        proof {
            assert forall|a: int, b: int| 0 <= a < b < changes@.len() implies at(changes@[a]) < at(
                changes@[b],
            ) by {
                assert(at(changes@[a]) == at(s[a]));
                assert(at(changes@[b]) == at(s[b]));
            }
        }
    } else {
        changes.insert(i, c);
        proof {
            let n = changes@;
            assert forall|a: int, b: int| 0 <= a < b < n.len() implies at(n[a]) < at(n[b]) by {
                if b < i {
                } else if b == i {
                    assert(at(s[a]) <= p);
                    assert(a == i - 1 || at(s[a]) < at(s[i - 1]));
                } else if a < i {
                    assert(at(n[b]) == at(s[b - 1]));
                } else if a == i {
                    assert(at(n[b]) == at(s[b - 1]));
                    assert(b - 1 == i || at(s[i as int]) < at(s[b - 1]));
                } else {
                }
            }
        }
    }
}

/// Tempo and time-signature changes, with the reference and playback sample rates.
#[derive(Clone, Debug)]
pub struct TempoMap {
    reference_sample_rate: u32,
    playback_sample_rate: u32,
    tempo_changes: Vec<Change<Tempo>>,
    time_signature_changes: Vec<Change<TimeSignature>>,
}

impl TempoMap {
    /// The tempo changes, in position order.
    pub closed spec fn tempos(&self) -> Seq<Change<Tempo>> {
        self.tempo_changes@
    }

    /// The time-signature changes, in position order.
    pub closed spec fn signatures(&self) -> Seq<Change<TimeSignature>> {
        self.time_signature_changes@
    }

    /// Ticks per second: what one tick means.
    pub closed spec fn reference_rate(&self) -> int {
        self.reference_sample_rate as int
    }

    /// Samples per second of the output device.
    pub closed spec fn playback_rate(&self) -> int {
        self.playback_sample_rate as int
    }

    /// Beat units in one beat.
    pub open spec fn units_per_beat(&self) -> int {
        60_000 * self.reference_rate()
    }

    pub closed spec fn wf(&self) -> bool {
        &&& self.reference_sample_rate > 0
        &&& self.playback_sample_rate > 0
        &&& tempos_wf(self.tempo_changes@)
        &&& signatures_wf(self.time_signature_changes@)
    }

    /// Facts that hold of every well-formed map.
    pub proof fn lemma_wf(&self)
        requires
            self.wf(),
        ensures
            self.reference_rate() > 0,
            self.reference_rate() <= u32::MAX,
            self.playback_rate() > 0,
            self.playback_rate() <= u32::MAX,
            tempos_wf(self.tempos()),
            signatures_wf(self.signatures()),
    {
    }

    /// A map at 120 BPM and 4/4 from zero.
    pub fn new(reference_sample_rate: u32, playback_sample_rate: u32) -> (r: TempoMap)
        requires
            reference_sample_rate > 0,
            playback_sample_rate > 0,
        ensures
            r.wf(),
            r.reference_rate() == reference_sample_rate,
            r.playback_rate() == playback_sample_rate,
            r.tempos() == seq![
                Change { position: TimePosition { position_ticks: 0 }, value: Tempo { milli_bpm: DEFAULT_MILLI_BPM } },
            ],
            r.signatures() == seq![
                Change {
                    position: TimePosition { position_ticks: 0 },
                    value: TimeSignature { numerator: 4, denominator: 4 },
                },
            ],
    {
        let mut tempo_changes: Vec<Change<Tempo>> = Vec::new();
        let mut time_signature_changes: Vec<Change<TimeSignature>> = Vec::new();
        tempo_changes.push(
            Change { position: TimePosition::zero(), value: Tempo::from_milli_bpm(DEFAULT_MILLI_BPM) },
        );
        time_signature_changes.push(
            Change { position: TimePosition::zero(), value: TimeSignature::new(4, 4) },
        );
        let r = TempoMap {
            reference_sample_rate,
            playback_sample_rate,
            tempo_changes,
            time_signature_changes,
        };
        assert(r.tempos() =~= seq![
            Change { position: TimePosition { position_ticks: 0 }, value: Tempo { milli_bpm: DEFAULT_MILLI_BPM } },
        ]);
        assert(r.signatures() =~= seq![
            Change {
                position: TimePosition { position_ticks: 0 },
                value: TimeSignature { numerator: 4, denominator: 4 },
            },
        ]);
        r
    }

    /// Changes the playback sample rate; tick positions keep their meaning.
    pub fn set_playback_sample_rate(&mut self, new_playback_sample_rate: u32)
        requires
            old(self).wf(),
            new_playback_sample_rate > 0,
        ensures
            final(self).wf(),
            final(self).playback_rate() == new_playback_sample_rate,
            final(self).reference_rate() == old(self).reference_rate(),
            final(self).tempos() == old(self).tempos(),
            final(self).signatures() == old(self).signatures(),
    {
        self.playback_sample_rate = new_playback_sample_rate;
    }

    /// Sets the tempo from `position` on, replacing a change at the same position.
    pub fn add_tempo_change(&mut self, position: TimePosition, tempo: Tempo)
        requires
            old(self).wf(),
            tempo.milli_bpm > 0,
        ensures
            final(self).wf(),
            final(self).tempos() == with_change(old(self).tempos(), Change { position, value: tempo }),
            final(self).signatures() == old(self).signatures(),
            final(self).reference_rate() == old(self).reference_rate(),
            final(self).playback_rate() == old(self).playback_rate(),
    {
        let ghost s = self.tempo_changes@;
        let c = Change { position, value: tempo };
        insert_change(&mut self.tempo_changes, c);
        proof {
            let n = self.tempo_changes@;
            let i = count_at_or_before(s, at(c));
            lemma_count_exists(s, at(c));
            assert forall|j: int| 0 <= j < n.len() implies n[j].value.milli_bpm > 0 by {
                if i > 0 && at(s[i - 1]) == at(c) {
                } else if j < i {
                } else if j > i {
                    assert(n[j] == s[j - 1]);
                }
            }
        }
    }

    /// Sets the time signature from `position` on, replacing a change at the same position.
    pub fn add_time_signature_change(&mut self, position: TimePosition, time_signature: TimeSignature)
        requires
            old(self).wf(),
            time_signature.numerator > 0,
        ensures
            final(self).wf(),
            final(self).signatures() == with_change(
                old(self).signatures(),
                Change { position, value: time_signature },
            ),
            final(self).tempos() == old(self).tempos(),
            final(self).reference_rate() == old(self).reference_rate(),
            final(self).playback_rate() == old(self).playback_rate(),
    {
        let ghost s = self.time_signature_changes@;
        let c = Change { position, value: time_signature };
        insert_change(&mut self.time_signature_changes, c);
        proof {
            let n = self.time_signature_changes@;
            let i = count_at_or_before(s, at(c));
            lemma_count_exists(s, at(c));
            assert forall|j: int| 0 <= j < n.len() implies n[j].value.numerator > 0 by {
                if i > 0 && at(s[i - 1]) == at(c) {
                } else if j < i {
                } else if j > i {
                    assert(n[j] == s[j - 1]);
                }
            }
        }
    }

    /// The tempo of the latest change at or before `position`.
    pub fn tempo_at(&self, position: &TimePosition) -> (r: Tempo)
        requires
            self.wf(),
        ensures
            r == value_at(self.tempos(), position.position_ticks as int),
    {
        let k = change_index_at(&self.tempo_changes, position.position_ticks);
        self.tempo_changes[k].value
    }

    /// The time signature of the latest change at or before `position`.
    pub fn time_signature_at(&self, position: &TimePosition) -> (r: TimeSignature)
        requires
            self.wf(),
        ensures
            r == value_at(self.signatures(), position.position_ticks as int),
    {
        let k = change_index_at(&self.time_signature_changes, position.position_ticks);
        self.time_signature_changes[k].value
    }

    /// Playback samples at `position`, rescaled from the reference rate and rounded.
    pub fn ticks_to_playback_samples(&self, position: &TimePosition) -> (r: u64)
        requires
            self.wf(),
        ensures
            r == clamp_ticks(
                round_div(position.position_ticks * self.playback_rate(), self.reference_rate()),
            ),
    {
        assert((position.position_ticks as u128) * (self.playback_sample_rate as u128)
            <= u128::MAX) by (nonlinear_arith)
            requires
                position.position_ticks <= u64::MAX,
                self.playback_sample_rate <= u32::MAX,
        ;
        let scaled = (position.position_ticks as u128) * (self.playback_sample_rate as u128);
        saturate_ticks(div_round(scaled, self.reference_sample_rate as u128))
    }

    /// The tick position of playback sample `samples`, rescaled and rounded.
    pub fn playback_samples_to_ticks(&self, samples: u64) -> (r: TimePosition)
        requires
            self.wf(),
        ensures
            r.position_ticks == clamp_ticks(
                round_div(samples * self.reference_rate(), self.playback_rate()),
            ),
    {
        assert((samples as u128) * (self.reference_sample_rate as u128) <= u128::MAX)
            by (nonlinear_arith)
            requires
                samples <= u64::MAX,
                self.reference_sample_rate <= u32::MAX,
        ;
        let scaled = (samples as u128) * (self.reference_sample_rate as u128);
        TimePosition {
            position_ticks: saturate_ticks(div_round(scaled, self.playback_sample_rate as u128)),
        }
    }

    /// Beat units from zero to `p`.
    fn units_at(&self, p: u64) -> (r: u128)
        requires
            self.wf(),
        ensures
            r == beat_units(self.tempos(), p as int),
    {
        let s = &self.tempo_changes;
        let k = change_index_at(s, p);
        let mut units: u128 = 0;
        let mut i: usize = 0;
        proof {
            assert(beat_units(s@, 0) == 0) by {
                lemma_units_bounds(s@, 0);
            }
        }
        while i < k
            invariant
                tempos_wf(s@),
                s@ == self.tempos(),
                k < s@.len(),
                i <= k,
                units == beat_units(s@, at(s@[i as int])),
            decreases k - i,
        {
            let a = s[i].position.position_ticks;
            let b = s[i + 1].position.position_ticks;
            let m = s[i].value.milli_bpm;
            let span: u64 = b - a;
            proof {
                lemma_units_segment(s@, i as int, b as int);
                lemma_units_bounds(s@, b as int);
                assert((b as int) * (u32::MAX as int) <= u128::MAX) by (nonlinear_arith)
                    requires
                        b <= u64::MAX,
                ;
                assert((span as int) * (m as int) <= u128::MAX) by (nonlinear_arith)
                    requires
                        span <= u64::MAX,
                        m <= u32::MAX,
                ;
            }
            units = units + (span as u128) * (m as u128);
            i = i + 1;
        }
        let a = s[k].position.position_ticks;
        let m = s[k].value.milli_bpm;
        let span: u64 = p - a;
        proof {
            lemma_units_segment(s@, k as int, p as int);
            lemma_units_bounds(s@, p as int);
            assert((p as int) * (u32::MAX as int) <= u128::MAX) by (nonlinear_arith)
                requires
                    p <= u64::MAX,
            ;
            assert((span as int) * (m as int) <= u128::MAX) by (nonlinear_arith)
                requires
                    span <= u64::MAX,
                    m <= u32::MAX,
            ;
        }
        units + (span as u128) * (m as u128)
    }

    /// The exact number of beats from zero to `position`, integrated over every
    /// tempo segment before it.
    pub fn position_to_beats(&self, position: &TimePosition) -> (r: Beats)
        requires
            self.wf(),
        ensures
            r.numer == beat_units(self.tempos(), position.position_ticks as int),
            r.denom == self.units_per_beat(),
    {
        let units = self.units_at(position.position_ticks);
        Beats { numer: units, denom: 60_000u64 * (self.reference_sample_rate as u64) }
    }

    /// The position at which `beats` beats have passed, rounded to the nearest
    /// tick and clamped to the largest position.
    pub fn beats_to_position(&self, beats: Beats) -> (r: TimePosition)
        requires
            self.wf(),
            beats.denom > 0,
            round_div(beats.numer * self.units_per_beat(), beats.denom as int) <= u128::MAX,
        ensures
            r.position_ticks == clamp_ticks(
                ticks_for_units(
                    self.tempos(),
                    round_div(beats.numer * self.units_per_beat(), beats.denom as int),
                ),
            ),
    {
        let s = &self.tempo_changes;
        let unit: u128 = 60_000u128 * (self.reference_sample_rate as u128);
        let d = beats.denom as u128;
        let whole = beats.numer / d;
        let part = beats.numer % d;
        proof {
            lemma_round_split(beats.numer as int, d as int, unit as int);
            assert(part * unit <= u128::MAX) by (nonlinear_arith)
                requires
                    part < d,
                    d <= u64::MAX,
                    unit <= 60_000 * (u32::MAX as int),
            ;
            assert(whole * unit <= u128::MAX) by (nonlinear_arith)
                requires
                    whole * unit <= round_div(beats.numer * unit, d as int),
                    round_div(beats.numer * unit, d as int) <= u128::MAX,
            ;
        }
        let frac = div_round(part * unit, d);
        let target = whole * unit + frac;
        let ghost t = target as int;
        let mut i: usize = 0;
        let mut units: u128 = 0;
        proof {
            lemma_units_bounds(s@, 0);
        }
        while i < s.len() - 1
            invariant
                tempos_wf(s@),
                s@ == self.tempos(),
                i < s@.len(),
                units == beat_units(s@, at(s@[i as int])),
                units <= t,
                t == target,
            ensures
                i < s@.len(),
                units == beat_units(s@, at(s@[i as int])),
                units <= t,
                i + 1 == s@.len() || beat_units(s@, at(s@[i + 1])) > t,
            decreases s@.len() - i,
        {
            let a = s[i].position.position_ticks;
            let b = s[i + 1].position.position_ticks;
            let m = s[i].value.milli_bpm;
            let span: u64 = b - a;
            proof {
                lemma_units_segment(s@, i as int, b as int);
                lemma_units_bounds(s@, b as int);
                assert((b as int) * (u32::MAX as int) <= u128::MAX) by (nonlinear_arith)
                    requires
                        b <= u64::MAX,
                ;
                assert((span as int) * (m as int) <= u128::MAX) by (nonlinear_arith)
                    requires
                        span <= u64::MAX,
                        m <= u32::MAX,
                ;
            }
            let next = units + (span as u128) * (m as u128);
            if next > target {
                break ;
            }
            units = next;
            i = i + 1;
        }
        proof {
            lemma_ticks_for_units(s@, i as int, t);
        }
        let base = s[i].position.position_ticks;
        let extra = div_round(target - units, s[i].value.milli_bpm as u128);
        if extra > (MAX_TICKS - base) as u128 {
            TimePosition { position_ticks: MAX_TICKS }
        } else {
            TimePosition { position_ticks: base + extra as u64 }
        }
    }

    /// Whole bars and the beats into the current bar at `position`. Bars are
    /// counted with the time signature of each segment; the beats left over go
    /// into bars of the signature in effect at `position`.
    pub fn position_to_bars_and_beats(&self, position: &TimePosition) -> (r: (u128, Beats))
        requires
            self.wf(),
        ensures
            r.0 == bars_and_units(
                self.tempos(),
                self.signatures(),
                position.position_ticks as int,
                self.units_per_beat(),
            ).0,
            r.1.numer == bars_and_units(
                self.tempos(),
                self.signatures(),
                position.position_ticks as int,
                self.units_per_beat(),
            ).1,
            r.1.denom == self.units_per_beat(),
    {
        let sg = &self.time_signature_changes;
        let ghost t = self.tempos();
        let unit: u128 = 60_000u128 * (self.reference_sample_rate as u128);
        let ghost u = unit as int;
        let p = position.position_ticks;
        let k = change_index_at(sg, p);
        let mut bars: u128 = 0;
        let mut used: u128 = 0;
        let mut prev_units: u128 = 0;
        let mut j: usize = 1;
        let n = sg.len();
        proof {
            lemma_units_bounds(t, 0);
        }
        while j <= k
            invariant
                self.wf(),
                t == self.tempos(),
                sg@ == self.signatures(),
                signatures_wf(sg@),
                tempos_wf(t),
                u == unit,
                unit == self.units_per_beat(),
                k < sg@.len(),
                n == sg@.len(),
                unit <= 60_000 * (u32::MAX as int),
                unit > 0,
                at(sg@[k as int]) <= p,
                1 <= j <= k + 1,
                (bars as int, used as int) == completed_bars(t, sg@, j as nat, u),
                bars <= used,
                used <= prev_units,
                prev_units == beat_units(t, at(sg@[j - 1])),
            decreases k + 1 - j,
        {
            let here = self.units_at(sg[j].position.position_ticks);
            proof {
                lemma_units_monotone(t, at(sg@[j - 1]), at(sg@[j as int]));
                lemma_units_monotone(t, at(sg@[j as int]), p as int);
                lemma_units_bounds(t, p as int);
                assert((p as int) * (u32::MAX as int) <= u128::MAX) by (nonlinear_arith)
                    requires
                        p <= u64::MAX,
                ;
            }
            let seg = here - prev_units;
            proof {
                assert(sg@[j - 1].value.numerator > 0);
                assert(0 < (sg@[j - 1].value.numerator as int) * (unit as int) <= u128::MAX)
                    by (nonlinear_arith)
                    requires
                        0 < sg@[j - 1].value.numerator <= 255,
                        0 < unit <= 60_000 * (u32::MAX as int),
                ;
            }
            let bar = (sg[j - 1].value.numerator as u128) * unit;
            let q = seg / bar;
            proof {
                lemma_fundamental_div_mod(seg as int, bar as int);
                assert(q <= q * bar <= seg) by (nonlinear_arith)
                    requires
                        bar >= 1,
                        q >= 0,
                        seg == bar * q + seg % bar,
                        seg % bar >= 0,
                ;
            }
            bars = bars + q;
            used = used + q * bar;
            prev_units = here;
            j = j + 1;
        }
        let total = self.units_at(p);
        proof {
            lemma_units_monotone(t, at(sg@[k as int]), p as int);
        }
        let rest = total - used;
        proof {
            assert(sg@[k as int].value.numerator > 0);
            assert(0 < (sg@[k as int].value.numerator as int) * (unit as int) <= u128::MAX)
                by (nonlinear_arith)
                requires
                    0 < sg@[k as int].value.numerator <= 255,
                    0 < unit <= 60_000 * (u32::MAX as int),
            ;
        }
        let bar = (sg[k].value.numerator as u128) * unit;
        proof {
            assert(rest / bar <= rest) by (nonlinear_arith)
                requires
                    bar >= 1,
                    rest >= 0,
            ;
            vstd::arithmetic::div_mod::lemma_div_is_ordered_by_denominator(rest as int, 1, bar as int);
            lemma_units_bounds(t, p as int);
            assert((p as int) * (u32::MAX as int) <= u128::MAX) by (nonlinear_arith)
                requires
                    p <= u64::MAX,
            ;
        }
        (bars + rest / bar, Beats { numer: rest % bar, denom: 60_000u64 * (self.reference_sample_rate as u64) })
    }

    /// Ticks per second: what one tick means.
    pub fn reference_sample_rate(&self) -> (r: u32)
        ensures
            r == self.reference_rate(),
    {
        self.reference_sample_rate
    }

    /// Samples per second of the output device.
    pub fn playback_sample_rate(&self) -> (r: u32)
        ensures
            r == self.playback_rate(),
    {
        self.playback_sample_rate
    }
}

} // verus!
