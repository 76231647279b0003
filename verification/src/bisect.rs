//! The bisection that looks for the significance level of an observed
//! F-statistic.
//!
//! The significance level is the upper-tail probability `p` of the
//! statistic: the statistic is the quantile of the F-distribution at
//! `1 - p`. The search keeps an interval of levels, at first all of
//! `[0, 1]`, and asks at its midpoint `p` whether the quantile at `1 - p`
//! exceeds the observed statistic. If it does the level sought is larger
//! and the lower bound moves up to the midpoint, else the upper bound moves
//! down to it. The question is thus answered yes below the level sought and
//! no above it. The search ends when the interval is no wider than the
//! tolerance, and its result is the midpoint of the last interval.
//!
//! The bounds are fractions with a power of two as denominator, so the
//! search is exact: `lower / scale` and `(lower + 1) / scale`.

use vstd::prelude::*;

verus! {

/// The tolerance of the search is one part in this many.
pub const TOLERANCE_PARTS: u32 = 10000;

/// A probability as an exact fraction.
#[derive(Clone, Copy, Debug, PartialEq, Eq, Structural)]
pub struct Probability {
    pub numerator: u32,
    pub denominator: u32,
}

impl Probability {
    /// One less the probability, over the same denominator. A fraction
    /// above one has the complement zero.
    pub open spec fn complement_of(self) -> Probability {
        Probability {
            numerator: if self.numerator <= self.denominator {
                (self.denominator - self.numerator) as u32
            } else {
                0
            },
            denominator: self.denominator,
        }
    }

    /// The probability at which the quantile is asked for the level `self`:
    /// one less the level.
    pub fn complement(self) -> (rest: Probability)
        ensures
            rest == self.complement_of(),
    {
        let numerator: u32 = if self.numerator <= self.denominator {
            self.denominator - self.numerator
        } else {
            0
        };
        Probability { numerator, denominator: self.denominator }
    }
}

/// The interval of probabilities from `lower / scale` to
/// `(lower + 1) / scale`.
pub struct Interval {
    pub lower: nat,
    pub scale: nat,
}

impl Interval {
    /// The interval of all probabilities.
    pub open spec fn unit() -> Interval {
        Interval { lower: 0, scale: 1 }
    }

    /// Whether the interval is no wider than the tolerance.
    pub open spec fn is_settled(self) -> bool {
        self.scale >= TOLERANCE_PARTS
    }

    /// The half of the interval that the search goes on with: the upper
    /// half where the answer at the midpoint was yes, the level sought being
    /// above it, else the lower half.
    pub open spec fn narrowed(self, exceeds: bool) -> Interval {
        Interval {
            lower: if exceeds {
                2 * self.lower + 1
            } else {
                2 * self.lower
            },
            scale: 2 * self.scale,
        }
    }

    /// The numerator of the midpoint over the denominator `2 * scale`.
    pub open spec fn midpoint_numerator(self) -> nat {
        2 * self.lower + 1
    }

    /// The denominator of the midpoint.
    pub open spec fn midpoint_denominator(self) -> nat {
        2 * self.scale
    }

    /// The interval after one answer for each element of `answers`, in
    /// order.
    pub open spec fn after(self, answers: Seq<bool>) -> Interval
        decreases answers.len(),
    {
        if answers.len() == 0 {
            self
        } else {
            self.after(answers.drop_last()).narrowed(answers.last())
        }
    }
}

/// 2 to the power `n`.
pub open spec fn two_to(n: nat) -> nat
    decreases n,
{
    if n == 0 {
        1
    } else {
        2 * two_to((n - 1) as nat)
    }
}

/// The number of answers after which the search has settled.
pub open spec fn steps_to_settle() -> nat {
    14
}

/// A search in progress.
pub struct Bisection {
    lower: u32,
    scale: u32,
}

impl View for Bisection {
    type V = Interval;

    closed spec fn view(&self) -> Interval {
        Interval { lower: self.lower as nat, scale: self.scale as nat }
    }
}

impl Bisection {
    #[verifier::type_invariant]
    spec fn bounded(&self) -> bool {
        self.lower < self.scale < 2 * TOLERANCE_PARTS
    }

    /// A search that has all of `[0, 1]` before it.
    pub fn new() -> (search: Bisection)
        ensures
            search@ == Interval::unit(),
    {
        Bisection { lower: 0, scale: 1 }
    }

    /// Whether the interval is no wider than the tolerance.
    pub fn converged(&self) -> (settled: bool)
        ensures
            settled == self@.is_settled(),
    {
        self.scale >= TOLERANCE_PARTS
    }

    /// The midpoint of the interval: the level to ask about next, or the
    /// result where the search has converged.
    pub fn candidate(&self) -> (p: Probability)
        ensures
            p.numerator == self@.midpoint_numerator(),
            p.denominator == self@.midpoint_denominator(),
            0 < p.numerator < p.denominator,
    {
        proof {
            use_type_invariant(self);
        }
        Probability { numerator: 2 * self.lower + 1, denominator: 2 * self.scale }
    }

    /// Goes on with one half of the interval. `quantile_exceeds` says
    /// whether the quantile at one less the candidate exceeds the observed
    /// statistic, that is whether the level sought is above the candidate.
    /// A search that has converged stays as it is.
    pub fn advance(&mut self, quantile_exceeds: bool)
        ensures
            final(self)@ == if old(self)@.is_settled() {
                old(self)@
            } else {
                old(self)@.narrowed(quantile_exceeds)
            },
    {
        proof {
            use_type_invariant(&*self);
        }
        if self.scale >= TOLERANCE_PARTS {
            return ;
        }
        let lower: u32 = if quantile_exceeds {
            2 * self.lower + 1
        } else {
            2 * self.lower
        };
        let scale: u32 = 2 * self.scale;
        *self = Bisection { lower, scale };
    }
}

/// The midpoint of an interval as a probability.
pub open spec fn midpoint(interval: Interval) -> Probability {
    Probability {
        numerator: interval.midpoint_numerator() as u32,
        denominator: interval.midpoint_denominator() as u32,
    }
}

/// Whether answer number `i` of `answers` is one that `quantile_exceeds`
/// can give at the midpoint of the interval that the answers before it lead
/// to, and that interval is not settled yet.
pub open spec fn answer_fits<F: Fn(Probability) -> bool>(
    quantile_exceeds: F,
    answers: Seq<bool>,
    i: int,
) -> bool {
    let interval = Interval::unit().after(answers.take(i));
    &&& !interval.is_settled()
    &&& quantile_exceeds.ensures((midpoint(interval),), answers[i])
}

/// Whether `answers` is what a search gets from `quantile_exceeds`: no
/// question is asked of a settled interval, and each answer is one that the
/// function can give at the midpoint of the interval reached before it.
pub open spec fn is_trace<F: Fn(Probability) -> bool>(
    quantile_exceeds: F,
    answers: Seq<bool>,
) -> bool {
    forall|i: int| 0 <= i < answers.len() ==> #[trigger] answer_fits(quantile_exceeds, answers, i)
}

/// A trace with one more fitting answer is a trace.
pub proof fn lemma_trace_extends<F: Fn(Probability) -> bool>(
    quantile_exceeds: F,
    answers: Seq<bool>,
    exceeds: bool,
)
    requires
        is_trace(quantile_exceeds, answers),
        !Interval::unit().after(answers).is_settled(),
        quantile_exceeds.ensures((midpoint(Interval::unit().after(answers)),), exceeds),
    ensures
        is_trace(quantile_exceeds, answers.push(exceeds)),
        Interval::unit().after(answers.push(exceeds)) == Interval::unit().after(answers).narrowed(
            exceeds,
        ),
{
    let longer = answers.push(exceeds);
    assert(longer.drop_last() =~= answers);
    assert forall|i: int| 0 <= i < longer.len() implies #[trigger] answer_fits(
        quantile_exceeds,
        longer,
        i,
    ) by {
        if i < answers.len() {
            assert(answer_fits(quantile_exceeds, answers, i));
            assert(longer.take(i) =~= answers.take(i));
        } else {
            assert(longer.take(i) =~= answers);
        }
    }
}

/// Runs the search to its end and returns the midpoint of the last
/// interval.
///
/// `quantile_exceeds` is asked at the midpoint `p` of each interval in turn
/// whether the quantile at `1 - p` exceeds the observed statistic, and has
/// to answer yes for the levels below the one sought and no for those
/// above. It is asked about levels strictly between 0 and 1 only. The
/// result is the midpoint that its answers lead to.
pub fn search<F: Fn(Probability) -> bool>(quantile_exceeds: F) -> (p: Probability)
    requires
        forall|q: Probability|
            0 < q.numerator < q.denominator ==> #[trigger] quantile_exceeds.requires((q,)),
    ensures
        exists|answers: Seq<bool>|
            {
                &&& #[trigger] is_trace(quantile_exceeds, answers)
                &&& Interval::unit().after(answers).is_settled()
                &&& p == midpoint(Interval::unit().after(answers))
            },
{
    let mut bisection = Bisection::new();
    let ghost mut answers: Seq<bool> = Seq::empty();
    while !bisection.converged()
        invariant
            forall|q: Probability|
                0 < q.numerator < q.denominator ==> #[trigger] quantile_exceeds.requires((q,)),
            bisection@ == Interval::unit().after(answers),
            is_trace(quantile_exceeds, answers),
            bisection@.scale < 2 * TOLERANCE_PARTS,
        decreases 2 * TOLERANCE_PARTS - bisection@.scale,
    {
        let p = bisection.candidate();
        let exceeds: bool = quantile_exceeds(p);
        bisection.advance(exceeds);
        proof {
            lemma_trace_extends(quantile_exceeds, answers, exceeds);
            answers = answers.push(exceeds);
        }
    }
    bisection.candidate()
}

/// Powers of two grow with the exponent.
pub proof fn lemma_two_to_grows(a: nat, b: nat)
    requires
        a <= b,
    ensures
        two_to(a) <= two_to(b),
    decreases b,
{
    if a < b {
        lemma_two_to_grows(a, (b - 1) as nat);
    }
}

/// Every answer halves the interval: after `n` answers it is one of the
/// `2^n` intervals of width `1 / 2^n` that `[0, 1]` falls into.
pub proof fn lemma_interval_after(answers: Seq<bool>)
    ensures
        Interval::unit().after(answers).scale == two_to(answers.len()),
        Interval::unit().after(answers).lower < Interval::unit().after(answers).scale,
    decreases answers.len(),
{
    if answers.len() > 0 {
        lemma_interval_after(answers.drop_last());
    }
}

/// The half that the search goes on with lies inside the interval it came
/// from, and shares with it the bound that did not move; the midpoint lies
/// strictly between the bounds.
pub proof fn lemma_narrowing_nests(interval: Interval, exceeds: bool)
    ensures
        interval.narrowed(exceeds).scale == 2 * interval.scale,
        2 * interval.lower <= interval.narrowed(exceeds).lower,
        interval.narrowed(exceeds).lower + 1 <= 2 * (interval.lower + 1),
        exceeds ==> interval.narrowed(exceeds).lower == interval.midpoint_numerator(),
        !exceeds ==> interval.narrowed(exceeds).lower + 1 == interval.midpoint_numerator(),
        2 * interval.lower < interval.midpoint_numerator() < 2 * (interval.lower + 1),
        interval.midpoint_denominator() == 2 * interval.scale,
{
}

/// Every search takes the same number of answers, whatever they are: the
/// interval is settled after the fourteenth and not before. The result is
/// a fraction with the denominator `2^15`.
pub proof fn lemma_search_length<F: Fn(Probability) -> bool>(
    quantile_exceeds: F,
    answers: Seq<bool>,
)
    requires
        is_trace(quantile_exceeds, answers),
        Interval::unit().after(answers).is_settled(),
    ensures
        answers.len() == steps_to_settle(),
        midpoint(Interval::unit().after(answers)).denominator == 32768,
        midpoint(Interval::unit().after(answers)).numerator
            == Interval::unit().after(answers).midpoint_numerator(),
{
    reveal_with_fuel(two_to, 15);
    lemma_interval_after(answers);
    if answers.len() > 14 {
        assert(answer_fits(quantile_exceeds, answers, 14));
        lemma_interval_after(answers.take(14));
    }
    if answers.len() < 14 {
        lemma_two_to_grows(answers.len(), 13);
    }
}

/// Where every answer is yes, the interval is the last one before 1: the
/// result is short of 1 by half the width of the interval. This is the
/// search for a statistic of zero, which every quantile exceeds.
pub proof fn lemma_always_exceeding_ends_at_one(answers: Seq<bool>)
    requires
        forall|i: int| 0 <= i < answers.len() ==> answers[i],
    ensures
        Interval::unit().after(answers).lower + 1 == Interval::unit().after(answers).scale,
        Interval::unit().after(answers).midpoint_numerator() + 1 == Interval::unit().after(
            answers,
        ).midpoint_denominator(),
    decreases answers.len(),
{
    if answers.len() > 0 {
        lemma_always_exceeding_ends_at_one(answers.drop_last());
    }
}

/// Where every answer is no, the interval is the first one after 0: the
/// result is above 0 by half the width of the interval.
pub proof fn lemma_never_exceeding_ends_at_zero(answers: Seq<bool>)
    requires
        forall|i: int| 0 <= i < answers.len() ==> !answers[i],
    ensures
        Interval::unit().after(answers).lower == 0,
        Interval::unit().after(answers).midpoint_numerator() == 1,
    decreases answers.len(),
{
    if answers.len() > 0 {
        lemma_never_exceeding_ends_at_zero(answers.drop_last());
    }
}

/// Whether `answers` are those of a question that is answered yes exactly
/// below the level `level_numerator / level_denominator`: each answer says
/// whether the midpoint asked about lies below that level.
pub open spec fn answers_point_to(
    answers: Seq<bool>,
    level_numerator: nat,
    level_denominator: nat,
) -> bool {
    forall|i: int|
        0 <= i < answers.len() ==> #[trigger] answers[i] == (Interval::unit().after(
            answers.take(i),
        ).midpoint_numerator() * level_denominator < level_numerator * Interval::unit().after(
            answers.take(i),
        ).midpoint_denominator())
}

/// The search closes in on the level sought: where the question is answered
/// yes exactly below a level in `[0, 1]`, that level lies in every interval
/// of the search, bounds included. At the end it is no further from the
/// result than half the width of the last interval.
pub proof fn lemma_search_brackets_the_level(
    answers: Seq<bool>,
    level_numerator: nat,
    level_denominator: nat,
)
    requires
        0 < level_denominator,
        level_numerator <= level_denominator,
        answers_point_to(answers, level_numerator, level_denominator),
    ensures
        Interval::unit().after(answers).lower * level_denominator <= level_numerator
            * Interval::unit().after(answers).scale,
        level_numerator * Interval::unit().after(answers).scale <= (Interval::unit().after(
            answers,
        ).lower + 1) * level_denominator,
    decreases answers.len(),
{
    if answers.len() > 0 {
        let shorter = answers.drop_last();
        assert forall|i: int| 0 <= i < shorter.len() implies #[trigger] shorter[i] == (
        Interval::unit().after(shorter.take(i)).midpoint_numerator() * level_denominator
            < level_numerator * Interval::unit().after(shorter.take(i)).midpoint_denominator()) by {
            assert(shorter.take(i) =~= answers.take(i));
            assert(shorter[i] == answers[i]);
        }
        lemma_search_brackets_the_level(shorter, level_numerator, level_denominator);
        let before = Interval::unit().after(shorter);
        let last = answers.len() - 1;
        assert(answers.take(last) =~= shorter);
        assert(answers[last] == (before.midpoint_numerator() * level_denominator < level_numerator
            * before.midpoint_denominator()));
        let l = before.lower as int;
        let s = before.scale as int;
        let n = level_numerator as int;
        let d = level_denominator as int;
        assert((2 * l + 1) * d == 2 * (l * d) + d) by (nonlinear_arith);
        assert((2 * l + 1 + 1) * d == 2 * (l * d) + 2 * d) by (nonlinear_arith);
        assert((2 * l) * d == 2 * (l * d)) by (nonlinear_arith);
        assert((l + 1) * d == l * d + d) by (nonlinear_arith);
        assert(n * (2 * s) == 2 * (n * s)) by (nonlinear_arith);
        let after = Interval::unit().after(answers);
        assert(after == before.narrowed(answers[last]));
        assert(after.scale == 2 * s);
        if answers[last] {
            assert(after.lower == 2 * l + 1);
        } else {
            assert(after.lower == 2 * l);
        }
    } else {
        assert(Interval::unit().after(answers) == Interval::unit());
        assert(level_numerator * 1 == level_numerator) by (nonlinear_arith);
        assert((0 + 1) * level_denominator == level_denominator) by (nonlinear_arith);
    }
}

/// The result of a search is within half the width of the last interval,
/// one part in `2^15`, of the level sought: where `quantile_exceeds` can
/// only answer yes below a level in `[0, 1]` and no from it on, the level
/// lies between the bounds of the interval whose midpoint is the result.
pub proof fn lemma_search_finds_the_level<F: Fn(Probability) -> bool>(
    quantile_exceeds: F,
    answers: Seq<bool>,
    level_numerator: nat,
    level_denominator: nat,
)
    requires
        is_trace(quantile_exceeds, answers),
        Interval::unit().after(answers).is_settled(),
        0 < level_denominator,
        level_numerator <= level_denominator,
        forall|q: Probability, yes: bool|
            0 < q.numerator < q.denominator && #[trigger] quantile_exceeds.ensures((q,), yes)
                ==> yes == (q.numerator * level_denominator < level_numerator * q.denominator),
    ensures
        midpoint(Interval::unit().after(answers)).denominator == 32768,
        (midpoint(Interval::unit().after(answers)).numerator - 1) * level_denominator
            <= level_numerator * 32768,
        level_numerator * 32768 <= (midpoint(Interval::unit().after(answers)).numerator + 1)
            * level_denominator,
{
    lemma_search_length(quantile_exceeds, answers);
    assert forall|i: int| 0 <= i < answers.len() implies #[trigger] answers[i] == (
    Interval::unit().after(answers.take(i)).midpoint_numerator() * level_denominator
        < level_numerator * Interval::unit().after(answers.take(i)).midpoint_denominator()) by {
        let interval = Interval::unit().after(answers.take(i));
        assert(answer_fits(quantile_exceeds, answers, i));
        lemma_interval_after(answers.take(i));
        assert(midpoint(interval).numerator == interval.midpoint_numerator());
        assert(midpoint(interval).denominator == interval.midpoint_denominator());
    }
    lemma_search_brackets_the_level(answers, level_numerator, level_denominator);
    let last = Interval::unit().after(answers);
    let l = last.lower as int;
    let d = level_denominator as int;
    let n = level_numerator as int;
    assert(last.scale == 16384) by {
        reveal_with_fuel(two_to, 15);
        lemma_interval_after(answers);
    }
    assert((2 * l + 1 - 1) * d == 2 * (l * d)) by (nonlinear_arith);
    assert((2 * l + 1 + 1) * d == 2 * ((l + 1) * d)) by (nonlinear_arith);
    assert(n * 32768 == 2 * (n * 16384)) by (nonlinear_arith);
}

} // verus!
