use crate::rng::random_i8_in;
use crate::rng::random_u8_in;
use vstd::prelude::*;

verus! {

/// One of the four arithmetic operations an exercise can ask for.
#[derive(Copy, Clone, PartialEq, Eq, Structural, Debug)]
pub enum MathOperation {
    Addition,
    Subtraction,
    Multiplication,
    Division,
}

impl MathOperation {
    /// Maps a number below four to an operation, one operation per number.
    pub fn from_index(i: u8) -> (op: MathOperation)
        requires
            i < 4,
        ensures
            i == 0 ==> op == MathOperation::Addition,
            i == 1 ==> op == MathOperation::Subtraction,
            i == 2 ==> op == MathOperation::Multiplication,
            i == 3 ==> op == MathOperation::Division,
    {
        if i == 0 {
            MathOperation::Addition
        } else if i == 1 {
            MathOperation::Subtraction
        } else if i == 2 {
            MathOperation::Multiplication
        } else {
            MathOperation::Division
        }
    }
}

/// Draws operations uniformly at random from the four-element operation set.
pub struct MathOperationDistribution {}

impl MathOperationDistribution {
    /// Picks one of the four operations at random; every operation is a
    /// possible outcome, so nothing more is promised of the result.
    pub fn sample(&self) -> MathOperation {
        let i = random_u8_in(0, 4);
        MathOperation::from_index(i)
    }
}

/// An operand of an exercise: a small signed integer.
#[derive(Copy, Clone, PartialEq, Eq, Structural, Debug)]
pub struct MathNumber {
    pub value: i8,
}

/// A difficulty profile: operands are drawn uniformly from the half-open
/// range `lo..hi`.
#[derive(Clone, Debug)]
pub struct MathNumberDistribution {
    pub lo: i8,
    pub hi: i8,
}

impl MathNumberDistribution {
    /// A profile is usable when its range is nonempty.
    pub open spec fn wf(&self) -> bool {
        self.lo < self.hi
    }

    /// Whether `v` lies within this profile's half-open range.
    pub open spec fn in_range(&self, v: i8) -> bool {
        self.lo <= v < self.hi
    }

    /// Whether the range holds some nonzero value, so that a divisor can be
    /// drawn from it.
    pub open spec fn has_nonzero(&self) -> bool {
        self.lo != 0 || self.hi > 1
    }

    /// The easy preset: operands in -10..20.
    pub fn easy() -> (d: MathNumberDistribution)
        ensures
            d.lo == -10 && d.hi == 20,
            d.wf(),
    {
        MathNumberDistribution { lo: -10, hi: 20 }
    }

    /// The normal preset: operands in -30..30.
    pub fn normal() -> (d: MathNumberDistribution)
        ensures
            d.lo == -30 && d.hi == 30,
            d.wf(),
    {
        MathNumberDistribution { lo: -30, hi: 30 }
    }

    /// The hard preset: operands over the full small-integer range.
    pub fn hard() -> (d: MathNumberDistribution)
        ensures
            d.lo == i8::MIN && d.hi == i8::MAX,
            d.wf(),
    {
        MathNumberDistribution { lo: i8::MIN, hi: i8::MAX }
    }

    /// Draws an operand uniformly from this profile's range.
    pub fn sample(&self) -> (n: MathNumber)
        requires
            self.wf(),
        ensures
            self.in_range(n.value),
    {
        let value = random_i8_in(self.lo, self.hi);
        MathNumber { value }
    }
}

impl Default for MathNumberDistribution {
    /// The profile used when none is chosen: the easy preset.
    fn default() -> (d: Self)
        ensures
            d.lo == -10 && d.hi == 20,
            d.wf(),
    {
        MathNumberDistribution::easy()
    }
}

/// One round's exercise: an operation applied to two operands, fixed once
/// created.
#[derive(Copy, Clone, PartialEq, Eq, Structural, Debug)]
pub struct Exercise {
    pub operation: MathOperation,
    pub first: MathNumber,
    pub second: MathNumber,
}

impl Exercise {
    /// The generator's invariant: a division exercise never has a zero
    /// divisor.
    pub open spec fn wf(&self) -> bool {
        self.operation == MathOperation::Division ==> self.second.value != 0
    }

    /// Decides the well-formedness invariant at run time.
    pub fn is_well_formed(&self) -> (r: bool)
        ensures
            r == self.wf(),
    {
        !(self.operation == MathOperation::Division && self.second.value == 0)
    }
}

/// Draws a nonzero operand from the difficulty's range by rejection
/// sampling: resample while the draw is zero. The retries are bounded so
/// that the loop provably ends; if every draw was zero, the least nonzero
/// value of the range is taken.
pub fn sample_divisor(difficulty: &MathNumberDistribution) -> (n: MathNumber)
    requires
        difficulty.wf(),
        difficulty.has_nonzero(),
    ensures
        difficulty.in_range(n.value),
        n.value != 0,
{
    let mut second = difficulty.sample();
    let mut fuel: u32 = 128;
    while second.value == 0 && fuel > 0
        invariant
            difficulty.wf(),
            difficulty.in_range(second.value),
        decreases fuel,
    {
        fuel = fuel - 1;
        second = difficulty.sample();
    }
    if second.value == 0 {
        let value: i8 = if difficulty.lo != 0 {
            difficulty.lo
        } else {
            1
        };
        second = MathNumber { value };
    }
    second
}

/// Creates a fresh exercise: a random operation and two operands drawn from
/// the difficulty's range, the second operand resampled while it is zero
/// whenever the operation is a division.
pub fn generate(difficulty: &MathNumberDistribution) -> (e: Exercise)
    requires
        difficulty.wf(),
        difficulty.has_nonzero(),
    ensures
        e.wf(),
        difficulty.in_range(e.first.value),
        difficulty.in_range(e.second.value),
{
    let operation = MathOperationDistribution {}.sample();
    let first = difficulty.sample();
    let second = if operation == MathOperation::Division {
        sample_divisor(difficulty)
    } else {
        difficulty.sample()
    };
    Exercise { operation, first, second }
}

} // verus!
