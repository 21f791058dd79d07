//! Rhythm grids: compiling a rhythm description into a fixed sequence of
//! per-tick events.

use crate::Error;
use vstd::arithmetic::div_mod::{
    lemma_div_basics, lemma_div_by_multiple, lemma_div_multiples_vanish_fancy,
    lemma_fundamental_div_mod, lemma_mod_multiples_basic, lemma_mod_multiples_vanish,
    lemma_mod_self_0, lemma_small_mod,
};
use vstd::prelude::*;

verus! {

/// One cell of a rhythm grid.
#[derive(Clone, Copy, Debug, PartialEq, Eq, Structural)]
pub enum Event {
    /// Silence for this tick.
    Rest,
    /// A beep; the integer is the emphasis level, 0 being the strongest.
    Beep(u32),
}

/// Greatest common divisor, by the Euclidean recursion.
pub open spec fn spec_gcd(a: nat, b: nat) -> nat
    decreases b,
{
    if b == 0 {
        a
    } else {
        spec_gcd(b, a % b)
    }
}

/// The greatest common divisor divides both its arguments, and is positive
/// as soon as either argument is.
pub proof fn lemma_gcd_divides(a: nat, b: nat)
    ensures
        a > 0 || b > 0 ==> spec_gcd(a, b) > 0,
        spec_gcd(a, b) > 0 ==> a % spec_gcd(a, b) == 0,
        spec_gcd(a, b) > 0 ==> b % spec_gcd(a, b) == 0,
    decreases b,
{
    if b == 0 {
        if a > 0 {
            lemma_mod_self_0(a as int);
            lemma_small_mod(0, a);
        }
    } else {
        lemma_gcd_divides(b, a % b);
        let g = spec_gcd(b, a % b);
        // g divides b and a % b; a is b * (a / b) + a % b, so g divides a.
        let gi = g as int;
        lemma_fundamental_div_mod(b as int, gi);
        lemma_fundamental_div_mod((a % b) as int, gi);
        lemma_fundamental_div_mod(a as int, b as int);
        let k1 = b as int / gi;
        let k2 = (a % b) as int / gi;
        let q = a as int / b as int;
        assert(a as int == (k1 * q + k2) * gi) by (nonlinear_arith)
            requires
                b as int == gi * k1,
                (a % b) as int == gi * k2,
                a as int == b as int * q + (a % b) as int,
        ;
        lemma_mod_multiples_basic(k1 * q + k2, gi);
    }
}

/// The mathematical content of a [`BeatSpec`]: its tick events and the
/// number of ticks per beat.
pub ghost struct GridView {
    pub ticks: Seq<Event>,
    pub beat_len: nat,
}

/// Description of precisely what events should occur and when during a
/// single measure.
#[derive(Debug)]
pub struct BeatSpec {
    // The set of events to run during each tick in a measure.
    ticks: Vec<Event>,
    // Length of a beat, in ticks.
    beat_len: u32,
}

impl View for BeatSpec {
    type V = GridView;

    closed spec fn view(&self) -> GridView {
        GridView { ticks: self.ticks@, beat_len: self.beat_len as nat }
    }
}

impl BeatSpec {
    /// A well-formed rhythm has at least one tick and a positive beat length.
    pub open spec fn wf(self) -> bool {
        self@.ticks.len() >= 1 && self@.beat_len >= 1
    }

    /// The tick events of the measure, in playing order.
    pub fn get_ticks(&self) -> (r: &[Event])
        ensures
            r@ == self@.ticks,
    {
        self.ticks.as_slice()
    }

    /// The length of one beat, in ticks.
    pub fn get_beat_len(&self) -> (r: u32)
        ensures
            r as nat == self@.beat_len,
    {
        self.beat_len
    }
}

impl Clone for BeatSpec {
    fn clone(&self) -> (r: Self)
        ensures
            r@ == self@,
    {
        let mut ticks: Vec<Event> = Vec::new();
        let n = self.ticks.len();
        for i in 0..n
            invariant
                n == self.ticks@.len(),
                ticks@ == self.ticks@.take(i as int),
        {
            ticks.push(self.ticks[i]);
            proof {
                assert(ticks@ =~= self.ticks@.take(i + 1));
            }
        }
        proof {
            assert(ticks@ =~= self.ticks@);
        }
        BeatSpec { ticks, beat_len: self.beat_len }
    }
}

/// One step of a running least common multiple: the lcm of `l` and `n`.
pub open spec fn lcm_step(l: nat, n: nat) -> nat {
    l * (n / spec_gcd(l, n))
}

/// Least common multiple of all numbers in `s` (1 for the empty list).
pub open spec fn lcm_seq(s: Seq<u32>) -> nat
    decreases s.len(),
{
    if s.len() == 0 {
        1
    } else {
        lcm_step(lcm_seq(s.drop_last()), s.last() as nat)
    }
}

/// Every entry of `s` is a positive beat count.
pub open spec fn all_positive(s: Seq<u32>) -> bool {
    forall|i: int| 0 <= i < s.len() ==> s[i] >= 1
}

/// A multiple of a multiple of `m` is itself a multiple of `m`.
proof fn lemma_divides_mul(l: nat, k: nat, m: nat)
    requires
        m > 0,
        l % m == 0,
    ensures
        (l * k) % m == 0,
{
    lemma_fundamental_div_mod(l as int, m as int);
    let q = l as int / m as int;
    assert(l as int * k as int == (q * k) * m as int) by (nonlinear_arith)
        requires
            l as int == m as int * q,
    ;
    lemma_mod_multiples_basic(q * k as int, m as int);
}

/// A positive divisor of a positive number is no larger than it.
proof fn lemma_divisor_le(n: nat, g: nat)
    requires
        n >= 1,
        g >= 1,
        n % g == 0,
    ensures
        g <= n,
{
    if g > n {
        lemma_small_mod(n, g);
    }
}

/// One lcm step grows the running value and is divisible by both inputs.
proof fn lemma_lcm_step(l: nat, n: nat)
    requires
        l >= 1,
        n >= 1,
    ensures
        lcm_step(l, n) >= l,
        lcm_step(l, n) % l == 0,
        lcm_step(l, n) % n == 0,
{
    let g = spec_gcd(l, n);
    lemma_gcd_divides(l, n);
    lemma_divisor_le(n, g);
    lemma_fundamental_div_mod(n as int, g as int);
    let ng = n as nat / g;
    if ng == 0 {
        assert(n as int == g as int * 0 + 0);
    }
    assert(ng >= 1);
    assert(l * ng >= l) by (nonlinear_arith)
        requires
            l >= 1,
            ng >= 1,
    ;
    assert(l as int * ng as int == ng as int * l as int) by (nonlinear_arith);
    lemma_mod_multiples_basic(ng as int, l as int);
    lemma_fundamental_div_mod(l as int, g as int);
    let lg = l as int / g as int;
    assert(l as int * ng as int == lg * n as int) by (nonlinear_arith)
        requires
            l as int == g as int * lg,
            n as int == g as int * ng as int,
    ;
    lemma_mod_multiples_basic(lg, n as int);
}

/// The lcm of a list of positive numbers is positive.
pub proof fn lemma_lcm_seq_pos(s: Seq<u32>)
    requires
        all_positive(s),
    ensures
        lcm_seq(s) >= 1,
    decreases s.len(),
{
    if s.len() > 0 {
        lemma_lcm_seq_pos(s.drop_last());
        lemma_lcm_step(lcm_seq(s.drop_last()), s.last() as nat);
    }
}

/// The lcm of a list of positive numbers is divisible by each of them.
pub proof fn lemma_lcm_seq_divides(s: Seq<u32>, j: int)
    requires
        all_positive(s),
        0 <= j < s.len(),
    ensures
        lcm_seq(s) % (s[j] as nat) == 0,
    decreases s.len(),
{
    let l = lcm_seq(s.drop_last());
    let n = s.last() as nat;
    lemma_lcm_seq_pos(s.drop_last());
    lemma_lcm_step(l, n);
    if j == s.len() - 1 {
    } else {
        lemma_lcm_seq_divides(s.drop_last(), j);
        lemma_gcd_divides(l, n);
        lemma_divides_mul(l, n / spec_gcd(l, n), s[j] as nat);
    }
}

/// The lcm of a prefix never exceeds the lcm of the whole list.
pub proof fn lemma_lcm_seq_prefix(s: Seq<u32>, i: int)
    requires
        all_positive(s),
        0 <= i <= s.len(),
    ensures
        lcm_seq(s.take(i)) <= lcm_seq(s),
    decreases s.len(),
{
    if i == s.len() {
        assert(s.take(i) =~= s);
    } else {
        assert(s.take(i) =~= s.drop_last().take(i));
        lemma_lcm_seq_prefix(s.drop_last(), i);
        lemma_lcm_seq_pos(s.drop_last());
        lemma_lcm_step(lcm_seq(s.drop_last()), s.last() as nat);
    }
}

/// Returns the greatest common divisor of two integers (Euclidean
/// algorithm).
pub fn euclid(a: u32, b: u32) -> (r: u32)
    ensures
        r == spec_gcd(a as nat, b as nat),
{
    let mut a: u32 = a;
    let mut b: u32 = b;
    let ghost a0: u32 = a;
    let ghost b0: u32 = b;
    while b != 0
        invariant
            spec_gcd(a as nat, b as nat) == spec_gcd(a0 as nat, b0 as nat),
        decreases b,
    {
        let tmp = b;
        b = a % b;
        a = tmp;
    }
    a
}

/// A cross-rhythm list with the implicit unit beat prepended, so that the
/// downbeat at the start of the measure always has the strongest emphasis.
pub open spec fn padded(beats: Seq<u32>) -> Seq<u32> {
    seq![1u32] + beats
}

/// Scans `beats` from priority `i` on: the first beat that owns tick `t` of
/// an `n`-tick measure yields `Beep` at its priority; otherwise the tick is
/// a `Rest`.
pub open spec fn crossbeat_scan(beats: Seq<u32>, n: nat, t: nat, i: nat) -> Event
    decreases beats.len() - i,
{
    if i >= beats.len() {
        Event::Rest
    } else if t % (n / (beats[i as int] as nat)) == 0 {
        Event::Beep(i as u32)
    } else {
        crossbeat_scan(beats, n, t, i + 1)
    }
}

/// The event at tick `t` of an `n`-tick measure driven by the cross-rhythms
/// `beats`, listed in order of decreasing emphasis.
pub open spec fn crossbeat_event(beats: Seq<u32>, n: nat, t: nat) -> Event {
    crossbeat_scan(beats, n, t, 0)
}

/// The greatest common divisor of a number and one of its multiples is the
/// number itself.
proof fn lemma_gcd_of_multiple(b: nat, m: nat)
    requires
        b >= 1,
        m >= b,
        m % b == 0,
    ensures
        spec_gcd(b, m) == b,
{
    reveal_with_fuel(spec_gcd, 5);
    if m == b {
        lemma_mod_self_0(m as int);
    } else {
        lemma_small_mod(b, m);
        lemma_small_mod(0, b);
    }
}

/// The lcm of the padded pair `[1, b, b * s]` is exactly `b * s`.
proof fn lemma_lcm_subdiv(b: u32, s: u32, bs: u32)
    requires
        b >= 1,
        s >= 1,
        bs as nat == b as nat * s as nat,
    ensures
        lcm_seq(padded(seq![b, bs])) == bs as nat,
{
    let bn = b as nat;
    let sn = s as nat;
    let bsn = bs as nat;
    assert(bsn >= bn && bsn >= sn) by (nonlinear_arith)
        requires
            bn >= 1,
            sn >= 1,
            bsn == bn * sn,
    ;
    let p = padded(seq![b, bs]);
    assert(p =~= seq![1u32, b, bs]);
    assert(p.drop_last() =~= seq![1u32, b]);
    assert(p.drop_last().drop_last() =~= seq![1u32]);
    assert(seq![1u32].drop_last() =~= Seq::<u32>::empty());
    // lcm of [1] is 1
    assert(spec_gcd(1, 1) == 1) by {
        reveal_with_fuel(spec_gcd, 3);
    }
    assert(lcm_seq(seq![1u32]) == 1) by {
        reveal_with_fuel(lcm_seq, 3);
        assert(seq![1u32].drop_last() =~= Seq::<u32>::empty());
        assert(seq![1u32].last() == 1u32);
        assert(spec_gcd(1, 1) == 1) by {
            reveal_with_fuel(spec_gcd, 3);
        }
    }
    // gcd(1, b) == 1, so the running lcm after b is b itself
    assert(spec_gcd(1, bn) == 1) by {
        reveal_with_fuel(spec_gcd, 4);
        if bn > 1 {
            lemma_small_mod(1, bn);
            lemma_small_mod(0, bn);
        }
    }
    lemma_div_basics(bn as int);
    assert(lcm_seq(seq![1u32, b]) == bn);
    // gcd(b, b * s) == b, so the final step multiplies in exactly s
    lemma_mod_multiples_basic(sn as int, bn as int);
    assert(bsn == sn * bn) by (nonlinear_arith)
        requires
            bsn == bn * sn,
    ;
    assert(bsn % bn == 0);
    lemma_gcd_of_multiple(bn, bsn);
    lemma_div_by_multiple(sn as int, bn as int);
    assert(bsn / bn == sn);
    assert(lcm_seq(p) == bn * (bsn / spec_gcd(bn, bsn)));
}

/// The first beat in `beats` (from priority `lo` on) that owns tick `t` of
/// an `n_ticks`-long measure, as the event of that tick.
fn event_at(beats: &Vec<u32>, n_ticks: u32, t: u32) -> (e: Event)
    requires
        all_positive(beats@),
        n_ticks >= 1,
        beats@.len() <= u32::MAX,
        forall|i: int|
            0 <= i < beats@.len() ==> (n_ticks as nat) % (#[trigger] beats@[i] as nat) == 0,
    ensures
        e == crossbeat_event(beats@, n_ticks as nat, t as nat),
{
    let len = beats.len();
    for i in 0..len
        invariant
            all_positive(beats@),
            n_ticks >= 1,
            len == beats@.len() <= u32::MAX,
            forall|j: int|
                0 <= j < beats@.len() ==> (n_ticks as nat) % (#[trigger] beats@[j] as nat) == 0,
            crossbeat_event(beats@, n_ticks as nat, t as nat) == crossbeat_scan(
                beats@,
                n_ticks as nat,
                t as nat,
                i as nat,
            ),
    {
        let b = beats[i];
        proof {
            lemma_divisor_le(n_ticks as nat, b as nat);
            if n_ticks / b == 0 {
                lemma_fundamental_div_mod(n_ticks as int, b as int);
            }
        }
        if t % (n_ticks / b) == 0 {
            return Event::Beep(i as u32);
        }
    }
    Event::Rest
}

/// Returns the lowest common multiple of the set of integers.
pub fn lcm(nums: &[u32]) -> (r: u32)
    requires
        all_positive(nums@),
        lcm_seq(nums@) <= u32::MAX,
    ensures
        r as nat == lcm_seq(nums@),
        r >= 1,
{
    match checked_lcm(nums) {
        Some(l) => l,
        None => {
            // Unreachable: the whole lcm fits, so every prefix does.
            proof {
                assert(false);
            }
            1
        },
    }
}

/// Lowest common multiple of a list of positive integers, or `None` where
/// the result does not fit in a `u32`.
pub fn checked_lcm(nums: &[u32]) -> (r: Option<u32>)
    requires
        all_positive(nums@),
    ensures
        match r {
            Some(l) => l as nat == lcm_seq(nums@) && l >= 1,
            None => lcm_seq(nums@) > u32::MAX,
        },
{
    let mut l: u32 = 1;
    let n = nums.len();
    for i in 0..n
        invariant
            n == nums@.len(),
            all_positive(nums@),
            l >= 1,
            l as nat == lcm_seq(nums@.take(i as int)),
    {
        let g = euclid(l, nums[i]);
        proof {
            lemma_gcd_divides(l as nat, nums@[i as int] as nat);
        }
        let next = match l.checked_mul(nums[i] / g) {
            Some(x) => x,
            None => {
                proof {
                    assert(nums@.take(i + 1).drop_last() =~= nums@.take(i as int));
                    lemma_lcm_seq_prefix(nums@, i + 1);
                }
                return None;
            },
        };
        proof {
            assert(nums@.take(i + 1).drop_last() =~= nums@.take(i as int));
            lemma_lcm_seq_pos(nums@.take(i as int));
            lemma_lcm_step(l as nat, nums@[i as int] as nat);
        }
        l = next;
    }
    proof {
        assert(nums@.take(n as int) =~= nums@);
    }
    Some(l)
}

impl BeatSpec {
    /// Creates a BeatSpec given a number of beats per measure and
    /// subdivisions per beat.
    pub fn from_subdiv(beats: u32, subdiv: u32) -> (r: BeatSpec)
        requires
            beats >= 1,
            subdiv >= 1,
            beats * subdiv <= u32::MAX,
        ensures
            r@.ticks.len() == lcm_seq(padded(seq![beats, (beats * subdiv) as u32])),
            r@.ticks.len() == beats * subdiv,
            r@.beat_len == subdiv,
            r@.beat_len == lcm_seq(padded(seq![beats, (beats * subdiv) as u32])) / (beats as nat),
            forall|t: int|
                0 <= t < r@.ticks.len() ==> r@.ticks[t] == crossbeat_event(
                    padded(seq![beats, (beats * subdiv) as u32]),
                    (beats * subdiv) as nat,
                    t as nat,
                ),
            r.wf(),
    {
        let both: Vec<u32> = vec![beats, beats * subdiv];
        proof {
            lemma_lcm_subdiv(beats, subdiv, (beats * subdiv) as u32);
            assert(both@ =~= seq![beats, (beats * subdiv) as u32]);
            assert(beats * subdiv >= beats && beats * subdiv >= subdiv) by (nonlinear_arith)
                requires
                    beats >= 1,
                    subdiv >= 1,
            ;
            lemma_mod_multiples_basic(subdiv as int, beats as int);
            assert((beats * subdiv) as nat == subdiv as nat * beats as nat) by (nonlinear_arith);
            lemma_div_by_multiple(subdiv as int, beats as int);
        }
        Self::from_crossbeats(both.as_slice())
    }

    /// Creates a BeatSpec given a set of simultaneous cross-rhythms,
    /// specified in order of decreasing emphasis.
    ///
    /// An implicit unit beat is prepended, so tick 0 of the measure is
    /// always the most emphasized downbeat. An empty list therefore yields
    /// the degenerate one-tick measure.
    pub fn from_crossbeats(beats: &[u32]) -> (r: BeatSpec)
        requires
            all_positive(beats@),
            beats@.len() < u32::MAX,
            lcm_seq(padded(beats@)) <= u32::MAX,
        ensures
            r@.ticks.len() == lcm_seq(padded(beats@)),
            forall|t: int|
                0 <= t < r@.ticks.len() ==> r@.ticks[t] == crossbeat_event(
                    padded(beats@),
                    lcm_seq(padded(beats@)),
                    t as nat,
                ),
            r@.ticks[0] == Event::Beep(0),
            r@.beat_len == if beats@.len() == 0 {
                1nat
            } else {
                lcm_seq(padded(beats@)) / (beats@[0] as nat)
            },
            r.wf(),
    {
        // Add an implicit crossbeat of 1, so we get a high-pitched beep at
        // the start of each measure.
        let mut all: Vec<u32> = vec![1u32];
        let bn = beats.len();
        for i in 0..bn
            invariant
                bn == beats@.len(),
                all@.len() == i + 1,
                all@[0] == 1u32,
                forall|j: int| 0 <= j < i ==> all@[j + 1] == beats@[j],
        {
            all.push(beats[i]);
        }
        proof {
            assert(all@ =~= padded(beats@));
        }

        let n_ticks = lcm(all.as_slice());
        proof {
            assert forall|i: int|
                0 <= i < all@.len() implies (n_ticks as nat) % (#[trigger] all@[i] as nat)
                == 0 by {
                lemma_lcm_seq_divides(all@, i);
            }
        }

        let mut ticks: Vec<Event> = Vec::new();
        let nt = n_ticks as usize;
        for t in 0..nt
            invariant
                nt == n_ticks,
                n_ticks >= 1,
                all@ == padded(beats@),
                all_positive(all@),
                all@.len() <= u32::MAX,
                n_ticks as nat == lcm_seq(all@),
                forall|i: int|
                    0 <= i < all@.len() ==> (n_ticks as nat) % (#[trigger] all@[i] as nat) == 0,
                ticks@.len() == t,
                forall|j: int|
                    0 <= j < t ==> ticks@[j] == crossbeat_event(all@, n_ticks as nat, j as nat),
        {
            ticks.push(event_at(&all, n_ticks, t as u32));
        }

        let beat_len = if bn == 0 {
            1u32
        } else {
            proof {
                lemma_lcm_seq_divides(all@, 1);
                lemma_divisor_le(n_ticks as nat, beats@[0] as nat);
                if n_ticks / beats[0] == 0 {
                    lemma_fundamental_div_mod(n_ticks as int, beats@[0] as int);
                }
            }
            n_ticks / beats[0]
        };

        proof {
            // Tick 0 is the implicit downbeat: the unit beat owns it.
            lemma_div_basics(n_ticks as int);
            lemma_small_mod(0, n_ticks as nat);
            assert(crossbeat_event(all@, n_ticks as nat, 0) == Event::Beep(0));
        }

        BeatSpec { ticks, beat_len }
    }
}

/// How many ticks each original tick becomes when a rhythm with beat length
/// `beat_len` is upsampled so its tick count divides `value`.
pub open spec fn upsample_factor(beat_len: nat, value: nat) -> nat {
    value / spec_gcd(beat_len, value)
}

impl BeatSpec {
    /// Constructs a BeatSpec with the same content as this one, but
    /// subdivided to be divisible by the given integer. E.g., given a
    /// 4/4 measure of quarter notes and the parameter 8, this returns
    /// an 8/8 measure with rests on the off-beats, which sounds
    /// exactly the same as the 4/4 measure.
    pub fn make_divisible(&self, value: u32) -> (r: BeatSpec)
        requires
            self.wf(),
            value >= 1,
            self@.beat_len * upsample_factor(self@.beat_len, value as nat) <= u32::MAX,
            self@.ticks.len() * upsample_factor(self@.beat_len, value as nat) <= usize::MAX,
        ensures
            r@.beat_len == self@.beat_len * upsample_factor(self@.beat_len, value as nat),
            r@.ticks.len() == self@.ticks.len() * upsample_factor(self@.beat_len, value as nat),
            forall|j: int|
                0 <= j < r@.ticks.len() ==> r@.ticks[j] == (if j % (upsample_factor(
                    self@.beat_len,
                    value as nat,
                ) as int) == 0 {
                    self@.ticks[j / (upsample_factor(self@.beat_len, value as nat) as int)]
                } else {
                    Event::Rest
                }),
            r.wf(),
    {
        let g = euclid(self.beat_len, value);
        proof {
            lemma_gcd_divides(self@.beat_len, value as nat);
            lemma_divisor_le(value as nat, g as nat);
            if value / g == 0 {
                lemma_fundamental_div_mod(value as int, g as int);
            }
        }
        let factor = value / g;
        let ghost f = factor as int;
        let mut out: Vec<Event> = Vec::new();
        let n = self.ticks.len();
        let mut i: usize = 0;
        while i < n
            invariant
                n == self@.ticks.len(),
                factor as nat == upsample_factor(self@.beat_len, value as nat),
                factor >= 1,
                n * f <= usize::MAX,
                f == factor as int,
                i <= n,
                out@.len() == i * f,
                forall|j: int|
                    0 <= j < i * f ==> out@[j] == (if j % f == 0 {
                        self@.ticks[j / f]
                    } else {
                        Event::Rest
                    }),
            decreases n - i,
        {
            proof {
                assert((i + 1) * f == i * f + f) by (nonlinear_arith);
                assert(i * f <= (i + 1) * f <= n * f) by (nonlinear_arith)
                    requires
                        0 <= i < n,
                        f >= 1,
                ;
                lemma_mod_multiples_vanish(i as int, 0, f);
                lemma_small_mod(0, f as nat);
                lemma_div_multiples_vanish_fancy(i as int, 0, f);
                assert(f * i == i * f) by (nonlinear_arith);
            }
            out.push(self.ticks[i]);
            let mut k: u32 = 1;
            while k < factor
                invariant
                    n == self@.ticks.len(),
                    0 <= i < n,
                    factor >= 1,
                    n * f <= usize::MAX,
                    f == factor as int,
                    1 <= k <= factor,
                    i * f + f <= n * f,
                    out@.len() == i * f + k,
                    forall|j: int|
                        0 <= j < i * f + k ==> out@[j] == (if j % f == 0 {
                            self@.ticks[j / f]
                        } else {
                            Event::Rest
                        }),
                decreases factor - k,
            {
                proof {
                    lemma_mod_multiples_vanish(i as int, k as int, f);
                    lemma_small_mod(k as nat, f as nat);
                    assert(f * i == i * f) by (nonlinear_arith);
                }
                out.push(Event::Rest);
                k = k + 1;
            }
            i = i + 1;
        }
        proof {
            assert(n * f >= 1 && self@.beat_len * (factor as nat) >= 1) by (nonlinear_arith)
                requires
                    n >= 1,
                    f >= 1,
                    f == factor as int,
                    self@.beat_len >= 1,
            ;
        }
        BeatSpec { ticks: out, beat_len: self.beat_len * factor }
    }
}

/// Upsampling law: a grid produced by `make_divisible` has a tick count
/// divisible by the requested `value` whenever the original tick count is
/// divisible by `gcd(beat_len, value)`; every original tick reappears at
/// the start of its block, and every inserted tick is a `Rest`, so removing
/// the inserted rests reconstructs the original grid exactly.
pub proof fn lemma_upsample_law(orig: GridView, up: GridView, value: nat)
    requires
        value >= 1,
        orig.beat_len >= 1,
        up.ticks.len() == orig.ticks.len() * upsample_factor(orig.beat_len, value),
        forall|j: int|
            0 <= j < up.ticks.len() ==> up.ticks[j] == (if j % (upsample_factor(
                orig.beat_len,
                value,
            ) as int) == 0 {
                orig.ticks[j / (upsample_factor(orig.beat_len, value) as int)]
            } else {
                Event::Rest
            }),
    ensures
        orig.ticks.len() % spec_gcd(orig.beat_len, value) == 0 ==> up.ticks.len() % value == 0,
        forall|i: int|
            0 <= i < orig.ticks.len() ==> up.ticks[i * (upsample_factor(
                orig.beat_len,
                value,
            ) as int)] == orig.ticks[i],
        forall|j: int|
            0 <= j < up.ticks.len() && j % (upsample_factor(orig.beat_len, value) as int) != 0
                ==> up.ticks[j] == Event::Rest,
{
    let g = spec_gcd(orig.beat_len, value);
    let f = upsample_factor(orig.beat_len, value);
    let len = orig.ticks.len();
    lemma_gcd_divides(orig.beat_len, value);
    lemma_divisor_le(value, g);
    lemma_fundamental_div_mod(value as int, g as int);
    if f == 0 {
        assert(value as int == g as int * 0 + 0);
    }
    assert(f >= 1);
    if len % g == 0 {
        lemma_fundamental_div_mod(len as int, g as int);
        let m = len as int / g as int;
        assert(len as int * f as int == m * (value as int)) by (nonlinear_arith)
            requires
                len as int == g as int * m,
                value as int == g as int * f as int,
        ;
        lemma_mod_multiples_basic(m, value as int);
    }
    assert forall|i: int| 0 <= i < len implies up.ticks[i * (f as int)] == orig.ticks[i] by {
        lemma_mod_multiples_basic(i, f as int);
        lemma_div_by_multiple(i, f as int);
        assert(i * (f as int) < len as int * (f as int)) by (nonlinear_arith)
            requires
                0 <= i < len,
                f >= 1,
        ;
        assert(0 <= i * (f as int)) by (nonlinear_arith)
            requires
                0 <= i,
                f >= 1,
        ;
    }
}

/// Only the characters of the rhythm-spec mini-language are accepted:
/// digits, `.` and `!`.
pub open spec fn rhythm_char_ok(c: char) -> bool {
    c == '.' || c == '!' || ('0' as u32 <= c as u32 && c as u32 <= '9' as u32)
}

/// The whole string is made of rhythm-spec characters.
pub open spec fn rhythm_ok(s: Seq<char>) -> bool {
    forall|i: int| 0 <= i < s.len() ==> rhythm_char_ok(#[trigger] s[i])
}

/// The event one emitting rhythm-spec character stands for.
pub open spec fn rhythm_char_event(c: char) -> Event {
    if c == '.' {
        Event::Rest
    } else {
        Event::Beep((c as u32 - '0' as u32) as u32)
    }
}

/// The ticks of a rhythm-spec string: one event per character, except that
/// `!` emits nothing.
pub open spec fn rhythm_ticks(s: Seq<char>) -> Seq<Event>
    decreases s.len(),
{
    if s.len() == 0 {
        Seq::empty()
    } else if s.last() == '!' {
        rhythm_ticks(s.drop_last())
    } else {
        rhythm_ticks(s.drop_last()).push(rhythm_char_event(s.last()))
    }
}

/// The beat length a rhythm-spec string declares: the number of ticks
/// emitted before the last `!`, or 1 where no `!` appears.
pub open spec fn rhythm_beat_len(s: Seq<char>) -> nat
    decreases s.len(),
{
    if s.len() == 0 {
        1
    } else if s.last() == '!' {
        rhythm_ticks(s.drop_last()).len()
    } else {
        rhythm_beat_len(s.drop_last())
    }
}

/// Index of the first character, at or after `i`, that the rhythm-spec
/// grammar refuses; -1 where there is none.
pub open spec fn first_bad_char(s: Seq<char>, i: nat) -> int
    decreases s.len() - i,
{
    if i >= s.len() {
        -1
    } else if !rhythm_char_ok(s[i as int]) {
        i as int
    } else {
        first_bad_char(s, i + 1)
    }
}

/// A scan that found only good characters before a bad one at `k` pins the
/// first bad character down to `k`.
proof fn lemma_first_bad_char(s: Seq<char>, i: nat, k: nat)
    requires
        i <= k < s.len(),
        forall|j: int| i <= j < k ==> rhythm_char_ok(#[trigger] s[j]),
        !rhythm_char_ok(s[k as int]),
    ensures
        first_bad_char(s, i) == k,
    decreases k - i,
{
    if i < k {
        lemma_first_bad_char(s, i + 1, k);
    }
}

impl BeatSpec {
    /// Creates a BeatSpec from a rhythm specification string: a digit
    /// beeps at that emphasis, `.` rests, and `!` marks the beat boundary
    /// after the ticks emitted so far. Any other character is refused,
    /// naming the first offending one.
    pub fn from_rhythmspec(s: &str) -> (r: Result<BeatSpec, Error>)
        requires
            s@.len() <= u32::MAX,
        ensures
            match r {
                Ok(bs) => rhythm_ok(s@) && bs@.ticks == rhythm_ticks(s@) && bs@.beat_len
                    == rhythm_beat_len(s@),
                Err(e) => !rhythm_ok(s@) && e == Error::ParseError(s@[first_bad_char(s@, 0)]),
            },
    {
        let len = s.unicode_len();
        let mut ticks: Vec<Event> = Vec::new();
        let mut beat_len: u32 = 1;
        let mut idx: usize = 0;
        while idx < len
            invariant
                len == s@.len() <= u32::MAX,
                idx <= len,
                forall|j: int| 0 <= j < idx ==> rhythm_char_ok(#[trigger] s@[j]),
                ticks@ == rhythm_ticks(s@.take(idx as int)),
                ticks@.len() <= idx,
                beat_len as nat == rhythm_beat_len(s@.take(idx as int)),
            decreases len - idx,
        {
            let c = s.get_char(idx);
            proof {
                assert(s@.take(idx as int + 1).drop_last() =~= s@.take(idx as int));
                assert(s@.take(idx as int + 1).last() == s@[idx as int]);
            }
            let cv = c as u32;
            if c == '.' {
                ticks.push(Event::Rest);
            } else if c == '!' {
                beat_len = ticks.len() as u32;
            } else if cv >= '0' as u32 && cv <= '9' as u32 {
                ticks.push(Event::Beep(cv - '0' as u32));
            } else {
                proof {
                    lemma_first_bad_char(s@, 0, idx as nat);
                }
                return Err(Error::ParseError(c));
            }
            idx = idx + 1;
        }
        proof {
            assert(s@.take(len as int) =~= s@);
        }
        Ok(BeatSpec { ticks, beat_len })
    }
}

} // verus!
