//! The integer side of the one-way analysis of variance: which groups can
//! be compared, the degrees of freedom, and the bisection that looks for
//! the significance level.
//!
//! The sums of squares and the quantiles of the F-distribution are the
//! caller's. The search for the significance level asks the caller one
//! question per step, whether the quantile at a probability exceeds the
//! observed statistic, and halves an interval of probabilities with each
//! answer. The interval has bounds with a power of two as denominator, so
//! that every probability of the search is an exact fraction.

use vstd::prelude::*;

verus! {

/// Why a collection of groups cannot be compared.
#[derive(Clone, Copy, Debug, PartialEq, Eq, Structural)]
pub enum AnovaError {
    /// There are fewer than two groups: the run was set up with nothing to
    /// compare.
    TooFewGroups { groups: usize },
    /// The group at `index` holds no value; it is the first such group.
    EmptyGroup { index: usize },
}

/// The counts that the analysis of variance divides by.
#[derive(Clone, Copy, Debug, PartialEq, Eq, Structural)]
pub struct AnovaPlan {
    /// The number of groups.
    pub groups: usize,
    /// The number of values in all groups together. It is kept in 128 bits,
    /// in which the sizes of any number of groups can be added up.
    pub total: u128,
    /// The degrees of freedom between the groups.
    pub df_between: usize,
    /// The degrees of freedom within the groups.
    pub df_within: u128,
}

/// The number of values in groups of the given sizes.
pub open spec fn total_size(sizes: Seq<usize>) -> nat
    decreases sizes.len(),
{
    if sizes.len() == 0 {
        0
    } else {
        total_size(sizes.drop_last()) + sizes.last() as nat
    }
}

/// The index of the first group without values, if there is one.
pub open spec fn first_empty(sizes: Seq<usize>) -> Option<int>
    decreases sizes.len(),
{
    if sizes.len() == 0 {
        None
    } else {
        match first_empty(sizes.drop_last()) {
            Some(index) => Some(index),
            None => if sizes.last() == 0 {
                Some(sizes.len() - 1)
            } else {
                None
            },
        }
    }
}

/// The plan for groups of the given sizes, or why there is none: two groups
/// at least are needed, and none may be empty.
pub open spec fn anova_plan(sizes: Seq<usize>) -> Result<AnovaPlan, AnovaError> {
    if sizes.len() < 2 {
        Err(AnovaError::TooFewGroups { groups: sizes.len() as usize })
    } else {
        match first_empty(sizes) {
            Some(index) => Err(AnovaError::EmptyGroup { index: index as usize }),
            None => Ok(
                AnovaPlan {
                    groups: sizes.len() as usize,
                    total: total_size(sizes) as u128,
                    df_between: (sizes.len() - 1) as usize,
                    df_within: (total_size(sizes) - sizes.len()) as u128,
                },
            ),
        }
    }
}

/// `first_empty` finds an empty group exactly when there is one, and then
/// the one with the smallest index.
pub proof fn lemma_first_empty(sizes: Seq<usize>)
    ensures
        first_empty(sizes) matches Some(index) ==> {
            &&& 0 <= index < sizes.len()
            &&& sizes[index] == 0
            &&& forall|j: int| 0 <= j < index ==> sizes[j] != 0
        },
        first_empty(sizes) is None ==> forall|j: int| 0 <= j < sizes.len() ==> sizes[j] != 0,
    decreases sizes.len(),
{
    if sizes.len() > 0 {
        let shorter = sizes.drop_last();
        lemma_first_empty(shorter);
        assert forall|j: int| 0 <= j < shorter.len() implies shorter[j] == sizes[j] by {}
    }
}

/// Groups without an empty one hold at least as many values as there are
/// groups, and no more than fit in 128 bits.
pub proof fn lemma_total_size_bounds(sizes: Seq<usize>)
    ensures
        total_size(sizes) <= sizes.len() * usize::MAX,
        first_empty(sizes) is None ==> total_size(sizes) >= sizes.len(),
    decreases sizes.len(),
{
    if sizes.len() > 0 {
        let shorter = sizes.drop_last();
        lemma_total_size_bounds(shorter);
        assert(shorter.len() * usize::MAX + usize::MAX == sizes.len() * usize::MAX)
            by (nonlinear_arith)
            requires
                shorter.len() + 1 == sizes.len(),
        ;
    }
}

/// Checks that groups of the given sizes can be compared, and gives the
/// counts that the analysis divides by.
pub fn plan_anova(sizes: &Vec<usize>) -> (plan: Result<AnovaPlan, AnovaError>)
    ensures
        plan == anova_plan(sizes@),
{
    let groups: usize = sizes.len();
    if groups < 2 {
        return Err(AnovaError::TooFewGroups { groups });
    }
    let mut total: u128 = 0;
    let mut i: usize = 0;
    proof {
        assert(sizes@.take(0) =~= Seq::<usize>::empty());
    }
    while i < groups
        invariant
            i <= groups,
            2 <= groups == sizes@.len(),
            total == total_size(sizes@.take(i as int)),
            first_empty(sizes@.take(i as int)) is None,
        decreases groups - i,
    {
        let size: usize = sizes[i];
        proof {
            assert(sizes@.take(i + 1).drop_last() =~= sizes@.take(i as int));
            lemma_total_size_bounds(sizes@.take(i + 1));
            assert(sizes@.take(i + 1).len() * usize::MAX <= usize::MAX * usize::MAX)
                by (nonlinear_arith)
                requires
                    sizes@.take(i + 1).len() <= usize::MAX,
            ;
            assert(usize::MAX * usize::MAX <= u128::MAX) by (nonlinear_arith)
                requires
                    usize::MAX <= 0xffff_ffff_ffff_ffff,
                    u128::MAX == 0xffff_ffff_ffff_ffff_ffff_ffff_ffff_ffff,
            ;
        }
        if size == 0 {
            proof {
                assert(first_empty(sizes@.take(i + 1)) == Some(i as int));
                lemma_first_empty_extends(sizes@, i + 1);
            }
            return Err(AnovaError::EmptyGroup { index: i });
        }
        total = total + (size as u128);
        i += 1;
    }
    proof {
        assert(sizes@.take(i as int) =~= sizes@);
        lemma_total_size_bounds(sizes@);
    }
    Ok(
        AnovaPlan {
            groups,
            total,
            df_between: groups - 1,
            df_within: total - (groups as u128),
        },
    )
}

/// The first empty group of a prefix is the first empty group of the whole.
pub proof fn lemma_first_empty_extends(sizes: Seq<usize>, n: int)
    requires
        0 <= n <= sizes.len(),
        first_empty(sizes.take(n)) is Some,
    ensures
        first_empty(sizes) == first_empty(sizes.take(n)),
    decreases sizes.len() - n,
{
    if n < sizes.len() {
        assert(sizes.drop_last().take(n) =~= sizes.take(n));
        lemma_first_empty_extends(sizes.drop_last(), n);
    } else {
        assert(sizes.take(n) =~= sizes);
    }
}

} // verus!
