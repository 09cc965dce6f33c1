//! Entity categories and the fixed combination table.
//!
//! Three primary categories combine pairwise into three secondary categories;
//! each primary's complement is the secondary formed from the other two
//! primaries; a primary together with its complement, or all three primaries
//! at once, yield the terminal category. Unlisted pairs do not combine.

use vstd::prelude::*;

verus! {

/// The category of a dynamic field entity.
#[derive(Clone, Copy, PartialEq, Eq, Structural, Debug)]
pub enum EnemyType {
    Red,
    Green,
    Blue,
    Purple,
    Yellow,
    Cyan,
    White,
}

/// Whether the category is one of the three primaries.
pub open spec fn spec_is_primary(t: EnemyType) -> bool {
    t is Red || t is Green || t is Blue
}

/// The result of fusing two categories, `None` when the pair is not in the
/// combination table: two distinct primaries give a secondary, a primary and
/// its complement give the terminal category, and nothing else combines.
pub open spec fn spec_pair_combine(a: EnemyType, b: EnemyType) -> Option<EnemyType> {
    match (a, b) {
        (EnemyType::Red, EnemyType::Green) => Some(EnemyType::Yellow),
        (EnemyType::Green, EnemyType::Red) => Some(EnemyType::Yellow),
        (EnemyType::Red, EnemyType::Blue) => Some(EnemyType::Purple),
        (EnemyType::Blue, EnemyType::Red) => Some(EnemyType::Purple),
        (EnemyType::Green, EnemyType::Blue) => Some(EnemyType::Cyan),
        (EnemyType::Blue, EnemyType::Green) => Some(EnemyType::Cyan),
        (EnemyType::Red, EnemyType::Cyan) => Some(EnemyType::White),
        (EnemyType::Cyan, EnemyType::Red) => Some(EnemyType::White),
        (EnemyType::Green, EnemyType::Purple) => Some(EnemyType::White),
        (EnemyType::Purple, EnemyType::Green) => Some(EnemyType::White),
        (EnemyType::Blue, EnemyType::Yellow) => Some(EnemyType::White),
        (EnemyType::Yellow, EnemyType::Blue) => Some(EnemyType::White),
        _ => None,
    }
}

/// The category's complement: for a primary, the secondary formed from the
/// other two primaries, and for a secondary, the primary it completes. The
/// terminal category has no complement.
pub open spec fn spec_complement(t: EnemyType) -> Option<EnemyType> {
    match t {
        EnemyType::Red => Some(EnemyType::Cyan),
        EnemyType::Cyan => Some(EnemyType::Red),
        EnemyType::Green => Some(EnemyType::Purple),
        EnemyType::Purple => Some(EnemyType::Green),
        EnemyType::Blue => Some(EnemyType::Yellow),
        EnemyType::Yellow => Some(EnemyType::Blue),
        EnemyType::White => None,
    }
}

impl EnemyType {
    /// Whether this category is one of the three primaries.
    pub fn is_primary(&self) -> (r: bool)
        ensures
            r == spec_is_primary(*self),
    {
        matches!(*self, EnemyType::Red | EnemyType::Green | EnemyType::Blue)
    }

    /// The fixed, symmetric pair-combination lookup; `None` when the two
    /// categories do not combine.
    pub fn pair_combine(&self, other: Self) -> (r: Option<EnemyType>)
        ensures
            r == spec_pair_combine(*self, other),
    {
        match (*self, other) {
            (EnemyType::Red, EnemyType::Green) => Some(EnemyType::Yellow),
            (EnemyType::Green, EnemyType::Red) => Some(EnemyType::Yellow),
            (EnemyType::Red, EnemyType::Blue) => Some(EnemyType::Purple),
            (EnemyType::Blue, EnemyType::Red) => Some(EnemyType::Purple),
            (EnemyType::Green, EnemyType::Blue) => Some(EnemyType::Cyan),
            (EnemyType::Blue, EnemyType::Green) => Some(EnemyType::Cyan),
            (EnemyType::Red, EnemyType::Cyan) => Some(EnemyType::White),
            (EnemyType::Cyan, EnemyType::Red) => Some(EnemyType::White),
            (EnemyType::Green, EnemyType::Purple) => Some(EnemyType::White),
            (EnemyType::Purple, EnemyType::Green) => Some(EnemyType::White),
            (EnemyType::Blue, EnemyType::Yellow) => Some(EnemyType::White),
            (EnemyType::Yellow, EnemyType::Blue) => Some(EnemyType::White),
            _ => None,
        }
    }

    /// The category's complement, `None` for the terminal category.
    pub fn complement(&self) -> (r: Option<EnemyType>)
        ensures
            r == spec_complement(*self),
    {
        match *self {
            EnemyType::Red => Some(EnemyType::Cyan),
            EnemyType::Cyan => Some(EnemyType::Red),
            EnemyType::Green => Some(EnemyType::Purple),
            EnemyType::Purple => Some(EnemyType::Green),
            EnemyType::Blue => Some(EnemyType::Yellow),
            EnemyType::Yellow => Some(EnemyType::Blue),
            EnemyType::White => None,
        }
    }
}

/// The pair-combination table is symmetric in its two arguments.
pub proof fn lemma_pair_combine_symmetric(a: EnemyType, b: EnemyType)
    ensures
        spec_pair_combine(a, b) == spec_pair_combine(b, a),
{
}

/// Complement pairs are mutual, and either order of a complement pair
/// combines, into the terminal category.
pub proof fn lemma_complement_pairs_combine(a: EnemyType, b: EnemyType)
    requires
        spec_complement(a) == Some(b),
    ensures
        spec_complement(b) == Some(a),
        spec_pair_combine(a, b) == spec_pair_combine(b, a),
        spec_pair_combine(a, b) == Some(EnemyType::White),
{
}

/// Two distinct primaries always combine, into a secondary category.
pub proof fn lemma_distinct_primaries_combine(a: EnemyType, b: EnemyType)
    requires
        spec_is_primary(a),
        spec_is_primary(b),
        a != b,
    ensures
        spec_pair_combine(a, b) is Some,
        !spec_is_primary(spec_pair_combine(a, b).unwrap()),
{
}

} // verus!
