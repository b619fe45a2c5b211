//! What the library asks of an individual and of its fitness value.
use vstd::prelude::*;

verus! {

/// How far apart two ranks lie.
pub open spec fn rank_distance(a: int, b: int) -> int {
    if a >= b {
        a - b
    } else {
        b - a
    }
}

/// A `Fitness` value measures the quality of a `Phenotype`.
///
/// Fitness values are totally ordered by their rank: a value of higher rank
/// belongs to a fitter phenotype.
pub trait Fitness: Sized {
    /// Where this value stands in the order; a higher rank is fitter.
    ///
    /// Implementations verified against this library define it. The default,
    /// the constant 0, lets an implementation outside verified code leave it
    /// out; such an implementation gets no meaningful guarantee from the
    /// contracts that speak of ranks (those of the selectors, for one).
    open spec fn rank(&self) -> int {
        0
    }

    /// The zero value of this type.
    fn zero() -> (r: Self)
        ensures
            r.rank() == 0,
    ;

    /// The absolute difference between two values.
    ///
    /// Where the exact distance lies beyond every value of the type, the result
    /// is the largest value, so that it still compares as the distance would.
    fn abs_diff(&self, other: &Self) -> (r: Self)
        ensures
            0 <= r.rank() <= rank_distance(self.rank(), other.rank()),
            r.rank() == rank_distance(self.rank(), other.rank()) || forall|v: Self|
                #[trigger] v.rank() <= r.rank(),
    ;

    /// The rank of this value as a number.
    fn score(&self) -> (r: i128)
        ensures
            r as int == self.rank(),
    ;
}

/// A phenotype (an individual) can breed with another one, giving a single
/// child, can be mutated, and has a fitness.
pub trait Phenotype<F: Fitness>: Sized + Clone {
    /// The rank of this phenotype's fitness.
    ///
    /// Implementations verified against this library define it. The default,
    /// the constant 0, lets an implementation outside verified code leave it
    /// out; such an implementation gets no meaningful guarantee from the
    /// contracts that speak of fitness ranks.
    open spec fn fitness_rank(&self) -> int {
        0
    }

    /// The fitness of this phenotype; the same on every call.
    fn fitness(&self) -> (r: F)
        ensures
            r.rank() == self.fitness_rank(),
    ;

    /// Whether `child` may come out of crossing this phenotype with `other`.
    ///
    /// Crossover may draw at random, so this is a relation, not a function.
    /// The default allows any child; an implementation verified against this
    /// library narrows it to what its `crossover` does.
    open spec fn crosses_to(&self, other: Self, child: Self) -> bool {
        true
    }

    /// Whether `child` may come out of mutating this phenotype.
    ///
    /// The default allows any child; an implementation verified against this
    /// library narrows it to what its `mutate` does.
    open spec fn mutates_to(&self, child: Self) -> bool {
        true
    }

    /// Combine this phenotype with another one into a new phenotype.
    fn crossover(&self, other: &Self) -> (r: Self)
        ensures
            self.crosses_to(*other, r),
    ;

    /// A mutated copy of this phenotype.
    fn mutate(&self) -> (r: Self)
        ensures
            self.mutates_to(r),
    ;
}

impl Fitness for i8 {
    open spec fn rank(&self) -> int {
        *self as int
    }

    fn zero() -> (r: i8) {
        0
    }

    fn abs_diff(&self, other: &i8) -> (r: i8) {
        let d: i16 = if *self > *other {
            *self as i16 - *other as i16
        } else {
            *other as i16 - *self as i16
        };
        if d > i8::MAX as i16 {
            i8::MAX
        } else {
            d as i8
        }
    }

    fn score(&self) -> (r: i128) {
        *self as i128
    }
}

impl Fitness for i16 {
    open spec fn rank(&self) -> int {
        *self as int
    }

    fn zero() -> (r: i16) {
        0
    }

    fn abs_diff(&self, other: &i16) -> (r: i16) {
        let d: i32 = if *self > *other {
            *self as i32 - *other as i32
        } else {
            *other as i32 - *self as i32
        };
        if d > i16::MAX as i32 {
            i16::MAX
        } else {
            d as i16
        }
    }

    fn score(&self) -> (r: i128) {
        *self as i128
    }
}

impl Fitness for i32 {
    open spec fn rank(&self) -> int {
        *self as int
    }

    fn zero() -> (r: i32) {
        0
    }

    fn abs_diff(&self, other: &i32) -> (r: i32) {
        let d: i64 = if *self > *other {
            *self as i64 - *other as i64
        } else {
            *other as i64 - *self as i64
        };
        if d > i32::MAX as i64 {
            i32::MAX
        } else {
            d as i32
        }
    }

    fn score(&self) -> (r: i128) {
        *self as i128
    }
}

impl Fitness for i64 {
    open spec fn rank(&self) -> int {
        *self as int
    }

    fn zero() -> (r: i64) {
        0
    }

    fn abs_diff(&self, other: &i64) -> (r: i64) {
        let d: i128 = if *self > *other {
            *self as i128 - *other as i128
        } else {
            *other as i128 - *self as i128
        };
        if d > i64::MAX as i128 {
            i64::MAX
        } else {
            d as i64
        }
    }

    fn score(&self) -> (r: i128) {
        *self as i128
    }
}

impl Fitness for u8 {
    open spec fn rank(&self) -> int {
        *self as int
    }

    fn zero() -> (r: u8) {
        0
    }

    fn abs_diff(&self, other: &u8) -> (r: u8) {
        if *self > *other {
            *self - *other
        } else {
            *other - *self
        }
    }

    fn score(&self) -> (r: i128) {
        *self as i128
    }
}

impl Fitness for u16 {
    open spec fn rank(&self) -> int {
        *self as int
    }

    fn zero() -> (r: u16) {
        0
    }

    fn abs_diff(&self, other: &u16) -> (r: u16) {
        if *self > *other {
            *self - *other
        } else {
            *other - *self
        }
    }

    fn score(&self) -> (r: i128) {
        *self as i128
    }
}

impl Fitness for u32 {
    open spec fn rank(&self) -> int {
        *self as int
    }

    fn zero() -> (r: u32) {
        0
    }

    fn abs_diff(&self, other: &u32) -> (r: u32) {
        if *self > *other {
            *self - *other
        } else {
            *other - *self
        }
    }

    fn score(&self) -> (r: i128) {
        *self as i128
    }
}

impl Fitness for u64 {
    open spec fn rank(&self) -> int {
        *self as int
    }

    fn zero() -> (r: u64) {
        0
    }

    fn abs_diff(&self, other: &u64) -> (r: u64) {
        if *self > *other {
            *self - *other
        } else {
            *other - *self
        }
    }

    fn score(&self) -> (r: i128) {
        *self as i128
    }
}

impl Fitness for usize {
    open spec fn rank(&self) -> int {
        *self as int
    }

    fn zero() -> (r: usize) {
        0
    }

    fn abs_diff(&self, other: &usize) -> (r: usize) {
        if *self > *other {
            *self - *other
        } else {
            *other - *self
        }
    }

    fn score(&self) -> (r: i128) {
        *self as i128
    }
}

} // verus!
