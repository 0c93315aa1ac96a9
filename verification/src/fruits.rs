//! The fruit catalog: the eleven tiers, their order and their successors.

use vstd::arithmetic::power::pow;
use vstd::prelude::*;

verus! {

/// A radius is held as a whole number of parts of a length unit; this many
/// parts make one unit.
pub const RADIUS_DENOMINATOR: u64 = 10_000_000_000;

/// A colour channel is held as a whole number of parts of full intensity;
/// this many parts make full intensity.
pub const COLOR_DENOMINATOR: u16 = 256;

/// A render colour: red, green and blue, each in parts of
/// `COLOR_DENOMINATOR`.
#[derive(Clone, Copy, Debug, PartialEq, Eq, Structural)]
pub struct Rgb {
    pub red: u16,
    pub green: u16,
    pub blue: u16,
}

/// One tier of the progression, from the smallest fruit to the largest.
#[derive(Clone, Copy, Debug, PartialEq, Eq, Structural)]
pub enum Fruit {
    Cherry,
    Strawberry,
    Grape,
    Decopon,
    Persimmon,
    Apple,
    Pear,
    Peach,
    Pineapple,
    Melon,
    Watermelon,
}

impl Fruit {
    /// The progression rank of a tier: 1 for the cherry, 11 for the watermelon.
    pub open spec fn spec_rank(self) -> nat {
        match self {
            Fruit::Cherry => 1,
            Fruit::Strawberry => 2,
            Fruit::Grape => 3,
            Fruit::Decopon => 4,
            Fruit::Persimmon => 5,
            Fruit::Apple => 6,
            Fruit::Pear => 7,
            Fruit::Peach => 8,
            Fruit::Pineapple => 9,
            Fruit::Melon => 10,
            Fruit::Watermelon => 11,
        }
    }

    /// The progression rank of this tier.
    pub fn rank(&self) -> (r: u8)
        ensures
            r == self.spec_rank(),
    {
        match self {
            Fruit::Cherry => 1,
            Fruit::Strawberry => 2,
            Fruit::Grape => 3,
            Fruit::Decopon => 4,
            Fruit::Persimmon => 5,
            Fruit::Apple => 6,
            Fruit::Pear => 7,
            Fruit::Peach => 8,
            Fruit::Pineapple => 9,
            Fruit::Melon => 10,
            Fruit::Watermelon => 11,
        }
    }

    /// The tier that follows this one in the progression; the watermelon,
    /// the last tier, has none.
    pub open spec fn spec_successor(self) -> Option<Fruit> {
        match self {
            Fruit::Cherry => Some(Fruit::Strawberry),
            Fruit::Strawberry => Some(Fruit::Grape),
            Fruit::Grape => Some(Fruit::Decopon),
            Fruit::Decopon => Some(Fruit::Persimmon),
            Fruit::Persimmon => Some(Fruit::Apple),
            Fruit::Apple => Some(Fruit::Pear),
            Fruit::Pear => Some(Fruit::Peach),
            Fruit::Peach => Some(Fruit::Pineapple),
            Fruit::Pineapple => Some(Fruit::Melon),
            Fruit::Melon => Some(Fruit::Watermelon),
            Fruit::Watermelon => None,
        }
    }

    /// What two touching fruits of tiers `self` and `other` turn into: the
    /// successor of their tier when the tiers are equal, nothing otherwise.
    pub open spec fn spec_promote(self, other: Fruit) -> Option<Fruit> {
        if self == other {
            self.spec_successor()
        } else {
            None
        }
    }

    /// The radius of a fruit of this tier, in parts of `RADIUS_DENOMINATOR`.
    /// A fruit of rank `k` has a radius of 10 x 1.3^k length units, which is
    /// 13^k x 10^(11 - k) ten-billionths of a unit.
    pub open spec fn spec_radius(self) -> int {
        pow(13, self.spec_rank()) * pow(10, (11 - self.spec_rank()) as nat)
    }

    /// The colour in which a fruit of this tier is drawn.
    pub open spec fn spec_color(self) -> Rgb {
        match self {
            Fruit::Cherry => Rgb { red: 240, green: 0, blue: 0 },
            Fruit::Strawberry => Rgb { red: 240, green: 109, blue: 85 },
            Fruit::Grape => Rgb { red: 147, green: 73, blue: 256 },
            Fruit::Decopon => Rgb { red: 253, green: 151, blue: 9 },
            Fruit::Persimmon => Rgb { red: 250, green: 0, blue: 0 },
            Fruit::Apple => Rgb { red: 237, green: 0, blue: 0 },
            Fruit::Pear => Rgb { red: 250, green: 250, blue: 103 },
            Fruit::Peach => Rgb { red: 253, green: 194, blue: 189 },
            Fruit::Pineapple => Rgb { red: 237, green: 235, blue: 15 },
            Fruit::Melon => Rgb { red: 117, green: 200, blue: 22 },
            Fruit::Watermelon => Rgb { red: 20, green: 87, blue: 16 },
        }
    }

    /// The radius of a fruit of this tier, in parts of `RADIUS_DENOMINATOR`
    /// of a length unit.
    pub fn radius(&self) -> (parts: u64)
        ensures
            parts == self.spec_radius(),
    {
        proof {
            lemma_radius_table();
        }
        match self {
            Fruit::Cherry => 130_000_000_000,
            Fruit::Strawberry => 169_000_000_000,
            Fruit::Grape => 219_700_000_000,
            Fruit::Decopon => 285_610_000_000,
            Fruit::Persimmon => 371_293_000_000,
            Fruit::Apple => 482_680_900_000,
            Fruit::Pear => 627_485_170_000,
            Fruit::Peach => 815_730_721_000,
            Fruit::Pineapple => 1_060_449_937_300,
            Fruit::Melon => 1_378_584_918_490,
            Fruit::Watermelon => 1_792_160_394_037,
        }
    }

    /// The colour in which a fruit of this tier is drawn. No channel
    /// exceeds full intensity.
    pub fn color(&self) -> (color: Rgb)
        ensures
            color == self.spec_color(),
            color.red <= COLOR_DENOMINATOR,
            color.green <= COLOR_DENOMINATOR,
            color.blue <= COLOR_DENOMINATOR,
    {
        match self {
            Fruit::Cherry => Rgb { red: 240, green: 0, blue: 0 },
            Fruit::Strawberry => Rgb { red: 240, green: 109, blue: 85 },
            Fruit::Grape => Rgb { red: 147, green: 73, blue: 256 },
            Fruit::Decopon => Rgb { red: 253, green: 151, blue: 9 },
            Fruit::Persimmon => Rgb { red: 250, green: 0, blue: 0 },
            Fruit::Apple => Rgb { red: 237, green: 0, blue: 0 },
            Fruit::Pear => Rgb { red: 250, green: 250, blue: 103 },
            Fruit::Peach => Rgb { red: 253, green: 194, blue: 189 },
            Fruit::Pineapple => Rgb { red: 237, green: 235, blue: 15 },
            Fruit::Melon => Rgb { red: 117, green: 200, blue: 22 },
            Fruit::Watermelon => Rgb { red: 20, green: 87, blue: 16 },
        }
    }

    /// The tier that follows this one, or `None` for the watermelon.
    pub fn successor(&self) -> (next: Option<Fruit>)
        ensures
            next == self.spec_successor(),
    {
        match self {
            Fruit::Cherry => Some(Fruit::Strawberry),
            Fruit::Strawberry => Some(Fruit::Grape),
            Fruit::Grape => Some(Fruit::Decopon),
            Fruit::Decopon => Some(Fruit::Persimmon),
            Fruit::Persimmon => Some(Fruit::Apple),
            Fruit::Apple => Some(Fruit::Pear),
            Fruit::Pear => Some(Fruit::Peach),
            Fruit::Peach => Some(Fruit::Pineapple),
            Fruit::Pineapple => Some(Fruit::Melon),
            Fruit::Melon => Some(Fruit::Watermelon),
            Fruit::Watermelon => None,
        }
    }

    /// The tier that a fruit of this tier and one of tier `other` merge
    /// into. Only equal tiers merge, and two watermelons do not.
    pub fn promote(&self, other: &Self) -> (next: Option<Self>)
        ensures
            next == self.spec_promote(*other),
    {
        if *self == *other {
            self.successor()
        } else {
            None
        }
    }
}

/// Every tier but the last has a successor, and the successor stands one
/// rank higher and has a strictly greater radius.
pub proof fn lemma_successor_outgrows(tier: Fruit)
    requires
        tier != Fruit::Watermelon,
    ensures
        tier.spec_successor() is Some,
        tier.spec_successor().unwrap().spec_rank() == tier.spec_rank() + 1,
        tier.spec_successor().unwrap().spec_rank() > tier.spec_rank(),
        tier.spec_successor().unwrap().spec_radius() > tier.spec_radius(),
{
    lemma_radius_ratio(tier);
    lemma_radius_positive(tier);
}

/// The last tier, and it alone, has no successor; with nothing to be
/// promoted to, two watermelons promote to nothing.
pub proof fn lemma_last_tier_ends(tier: Fruit)
    ensures
        Fruit::Watermelon.spec_successor() is None,
        Fruit::Watermelon.spec_promote(Fruit::Watermelon) is None,
        tier.spec_successor() is None <==> tier == Fruit::Watermelon,
{
}

/// The radii grow by the ratio 1.3 from one rank to the next, starting
/// from 10 x 1.3 length units for the cherry.
pub proof fn lemma_radius_ratio(tier: Fruit)
    ensures
        Fruit::Cherry.spec_radius() == 13 * RADIUS_DENOMINATOR,
        tier.spec_successor() matches Some(next) ==> 10 * next.spec_radius() == 13
            * tier.spec_radius(),
{
    lemma_radius_table();
}

/// Every radius is positive.
pub proof fn lemma_radius_positive(tier: Fruit)
    ensures
        tier.spec_radius() > 0,
{
    lemma_radius_table();
}

/// The radius grows strictly with the rank.
pub proof fn lemma_radius_grows_with_rank(small: Fruit, large: Fruit)
    requires
        small.spec_rank() < large.spec_rank(),
    ensures
        small.spec_radius() < large.spec_radius(),
{
    lemma_radius_table();
}

/// The powers of ten up to the tenth.
proof fn lemma_powers_of_ten()
    ensures
        pow(10, 0) == 1,
        pow(10, 1) == 10,
        pow(10, 2) == 100,
        pow(10, 3) == 1_000,
        pow(10, 4) == 10_000,
        pow(10, 5) == 100_000,
        pow(10, 6) == 1_000_000,
        pow(10, 7) == 10_000_000,
        pow(10, 8) == 100_000_000,
        pow(10, 9) == 1_000_000_000,
        pow(10, 10) == 10_000_000_000,
{
    reveal_with_fuel(pow, 2);
    assert(pow(10, 1) == 10 * pow(10, 0));
    assert(pow(10, 2) == 10 * pow(10, 1));
    assert(pow(10, 3) == 10 * pow(10, 2));
    assert(pow(10, 4) == 10 * pow(10, 3));
    assert(pow(10, 5) == 10 * pow(10, 4));
    assert(pow(10, 6) == 10 * pow(10, 5));
    assert(pow(10, 7) == 10 * pow(10, 6));
    assert(pow(10, 8) == 10 * pow(10, 7));
    assert(pow(10, 9) == 10 * pow(10, 8));
    assert(pow(10, 10) == 10 * pow(10, 9));
}

/// The powers of thirteen from the first to the eleventh.
proof fn lemma_powers_of_thirteen()
    ensures
        pow(13, 1) == 13,
        pow(13, 2) == 169,
        pow(13, 3) == 2_197,
        pow(13, 4) == 28_561,
        pow(13, 5) == 371_293,
        pow(13, 6) == 4_826_809,
        pow(13, 7) == 62_748_517,
        pow(13, 8) == 815_730_721,
        pow(13, 9) == 10_604_499_373,
        pow(13, 10) == 137_858_491_849,
        pow(13, 11) == 1_792_160_394_037,
{
    reveal_with_fuel(pow, 2);
    assert(pow(13, 1) == 13 * pow(13, 0));
    assert(pow(13, 2) == 13 * pow(13, 1));
    assert(pow(13, 3) == 13 * pow(13, 2));
    assert(pow(13, 4) == 13 * pow(13, 3));
    assert(pow(13, 5) == 13 * pow(13, 4));
    assert(pow(13, 6) == 13 * pow(13, 5));
    assert(pow(13, 7) == 13 * pow(13, 6));
    assert(pow(13, 8) == 13 * pow(13, 7));
    assert(pow(13, 9) == 13 * pow(13, 8));
    assert(pow(13, 10) == 13 * pow(13, 9));
    assert(pow(13, 11) == 13 * pow(13, 10));
}

/// The radius of each tier, worked out.
proof fn lemma_radius_table()
    ensures
        Fruit::Cherry.spec_radius() == 130_000_000_000,
        Fruit::Strawberry.spec_radius() == 169_000_000_000,
        Fruit::Grape.spec_radius() == 219_700_000_000,
        Fruit::Decopon.spec_radius() == 285_610_000_000,
        Fruit::Persimmon.spec_radius() == 371_293_000_000,
        Fruit::Apple.spec_radius() == 482_680_900_000,
        Fruit::Pear.spec_radius() == 627_485_170_000,
        Fruit::Peach.spec_radius() == 815_730_721_000,
        Fruit::Pineapple.spec_radius() == 1_060_449_937_300,
        Fruit::Melon.spec_radius() == 1_378_584_918_490,
        Fruit::Watermelon.spec_radius() == 1_792_160_394_037,
{
    lemma_powers_of_ten();
    lemma_powers_of_thirteen();
}

} // verus!
