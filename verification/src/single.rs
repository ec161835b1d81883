//! Single-precision numbers, held by their IEEE 754 bits.
//!
//! The library orders, limits and carries these numbers. Sums, products and
//! quotients come from the caller, who hands in a function that evaluates a
//! [`Calc`].

use vstd::prelude::*;

verus! {

/// A single-precision number: sign in the top bit, magnitude in the others.
#[derive(Debug, Clone, Copy, PartialEq, Eq, Structural)]
pub struct Single {
    pub bits: u32,
}

/// One arithmetic operation on single-precision numbers.
#[derive(Debug, Clone, Copy, PartialEq, Eq, Structural)]
pub enum Calc {
    /// The sum of the two.
    Add(Single, Single),
    /// The first less the second.
    Sub(Single, Single),
    /// The product of the two.
    Mul(Single, Single),
    /// The first divided by the second.
    Div(Single, Single),
    /// The integer, rounded to single precision.
    OfInt(i64),
}

/// The bits of zero.
pub const ZERO: u32 = 0;

/// The bits of one half.
pub const HALF: u32 = 0x3f00_0000;

/// The bits of one.
pub const ONE: u32 = 0x3f80_0000;

/// The bits of minus one.
pub const MINUS_ONE: u32 = 0xbf80_0000;

impl Single {
    /// The sign bit is set.
    pub open spec fn negative(self) -> bool {
        self.bits >= 0x8000_0000
    }

    /// The number without its sign, as an integer that grows with it.
    pub open spec fn magnitude(self) -> int {
        if self.negative() {
            self.bits - 0x8000_0000
        } else {
            self.bits as int
        }
    }

    /// Not a number.
    pub open spec fn nan(self) -> bool {
        self.magnitude() > 0x7f80_0000
    }

    /// The place of the number on the number line; both zeros are at 0.
    pub open spec fn rank(self) -> int {
        if self.negative() {
            -self.magnitude()
        } else {
            self.magnitude()
        }
    }

    /// `self` is a number, `other` is a number, and `self` is the smaller.
    pub open spec fn below(self, other: Single) -> bool {
        !self.nan() && !other.nan() && self.rank() < other.rank()
    }

    /// `self` limited to the range from `low` to `high`.
    pub open spec fn limited(self, low: Single, high: Single) -> Single {
        if self.below(low) {
            low
        } else if high.below(self) {
            high
        } else {
            self
        }
    }

    /// The smaller of the two; where one is not a number, the other.
    pub open spec fn lesser(self, other: Single) -> Single {
        if self.nan() || other.below(self) {
            other
        } else {
            self
        }
    }

    /// The greater of the two; where one is not a number, the other.
    pub open spec fn greater(self, other: Single) -> Single {
        if self.nan() || self.below(other) {
            other
        } else {
            self
        }
    }

    /// The number with its sign bit cleared.
    pub open spec fn unsigned(self) -> Single {
        Single { bits: self.magnitude() as u32 }
    }

    /// The number without its sign, as an integer.
    pub fn magnitude_bits(&self) -> (res: u32)
        ensures
            res == self.magnitude(),
    {
        if self.bits >= 0x8000_0000 {
            self.bits - 0x8000_0000
        } else {
            self.bits
        }
    }

    /// Whether this is not a number.
    pub fn is_nan(&self) -> (res: bool)
        ensures
            res == self.nan(),
    {
        self.magnitude_bits() > 0x7f80_0000
    }

    /// Whether `self < other`.
    pub fn lt(&self, other: &Single) -> (res: bool)
        ensures
            res == self.below(*other),
    {
        if self.is_nan() || other.is_nan() {
            return false;
        }
        let a: i64 = if self.bits >= 0x8000_0000 {
            -(self.magnitude_bits() as i64)
        } else {
            self.bits as i64
        };
        let b: i64 = if other.bits >= 0x8000_0000 {
            -(other.magnitude_bits() as i64)
        } else {
            other.bits as i64
        };
        a < b
    }

    /// Whether `self >= other`.
    pub fn ge(&self, other: &Single) -> (res: bool)
        ensures
            res == (!self.nan() && !other.nan() && !self.below(*other)),
    {
        !self.is_nan() && !other.is_nan() && !self.lt(other)
    }

    /// Limits the number to the range from `low` to `high`.
    pub fn clamp(&self, low: Single, high: Single) -> (res: Single)
        ensures
            res == self.limited(low, high),
    {
        if self.lt(&low) {
            low
        } else if high.lt(self) {
            high
        } else {
            *self
        }
    }

    /// The smaller of the two.
    pub fn min(&self, other: Single) -> (res: Single)
        ensures
            res == self.lesser(other),
    {
        if self.is_nan() || other.lt(self) {
            other
        } else {
            *self
        }
    }

    /// The greater of the two.
    pub fn max(&self, other: Single) -> (res: Single)
        ensures
            res == self.greater(other),
    {
        if self.is_nan() || self.lt(&other) {
            other
        } else {
            *self
        }
    }

    /// The number without its sign.
    pub fn abs(&self) -> (res: Single)
        ensures
            res == self.unsigned(),
    {
        Single { bits: self.magnitude_bits() }
    }

    /// The number with its sign bit turned over.
    pub open spec fn negated(self) -> Single {
        if self.negative() {
            Single { bits: (self.bits - 0x8000_0000) as u32 }
        } else {
            Single { bits: (self.bits + 0x8000_0000) as u32 }
        }
    }

    /// The product of the sign of `self`, which is one or minus one, and `size`.
    pub open spec fn sign_times(self, size: Single) -> Single {
        if self.nan() {
            self
        } else if self.negative() {
            size.negated()
        } else {
            size
        }
    }

    /// The product of the sign of `self` and `size`.
    pub fn times_sign(&self, size: Single) -> (res: Single)
        ensures
            res == self.sign_times(size),
    {
        if self.is_nan() {
            *self
        } else if self.bits >= 0x8000_0000 {
            if size.bits >= 0x8000_0000 {
                Single { bits: size.bits - 0x8000_0000 }
            } else {
                Single { bits: size.bits + 0x8000_0000 }
            }
        } else {
            size
        }
    }
}

/// `f`, asked for `c`, may answer `r`.
pub open spec fn gives<F: Fn(Calc) -> Single>(f: F, c: Calc, r: Single) -> bool {
    call_ensures(f, (c,), r)
}

/// `f` answers every question.
pub open spec fn total<F: Fn(Calc) -> Single>(f: F) -> bool {
    forall|c: Calc| #[trigger] call_requires(f, (c,))
}

/// `show` writes every number.
pub open spec fn shows_all<G: Fn(Single) -> String>(show: G) -> bool {
    forall|x: Single| #[trigger] call_requires(show, (x,))
}

/// `show` may write `x` as `text`.
pub open spec fn shown_as<G: Fn(Single) -> String>(show: G, x: Single, text: Seq<char>) -> bool {
    exists|s: String| s@ == text && #[trigger] call_ensures(show, (x,), s)
}

/// Writes a number with `show`.
pub fn show_with<G: Fn(Single) -> String>(show: &G, x: Single) -> (res: String)
    requires
        shows_all(*show),
    ensures
        shown_as(*show, x, res@),
{
    let s: String = show(x);
    assert(s@ == s@ && call_ensures(*show, (x,), s));
    s
}

/// `sums` are the running sums of `items` that `f` may give, from the left, starting at zero.
pub open spec fn running_sums<F: Fn(Calc) -> Single>(
    f: F,
    items: Seq<Single>,
    sums: Seq<Single>,
) -> bool {
    &&& sums.len() == items.len() + 1
    &&& sums[0] == (Single { bits: ZERO })
    &&& forall|i: int|
        0 <= i < items.len() ==> gives(
            f,
            Calc::Add(sums[i], #[trigger] items[i]),
            sums[i + 1],
        )
}

/// `r` is what `f` may give for the sum of `items`, from the left, starting at zero.
pub open spec fn sum_gives<F: Fn(Calc) -> Single>(f: F, items: Seq<Single>, r: Single) -> bool {
    exists|sums: Seq<Single>| #[trigger] running_sums(f, items, sums) && r == sums.last()
}

/// The sum of nothing is zero.
pub proof fn lemma_sum_empty<F: Fn(Calc) -> Single>(f: F)
    ensures
        sum_gives(f, Seq::empty(), Single { bits: ZERO }),
{
    assert(running_sums(f, Seq::empty(), seq![Single { bits: ZERO }]));
}

/// One more item adds to the sum.
pub proof fn lemma_sum_push<F: Fn(Calc) -> Single>(
    f: F,
    items: Seq<Single>,
    sum: Single,
    item: Single,
    next: Single,
)
    requires
        sum_gives(f, items, sum),
        gives(f, Calc::Add(sum, item), next),
    ensures
        sum_gives(f, items.push(item), next),
{
    let sums = choose|sums: Seq<Single>| #[trigger]
        running_sums(f, items, sums) && sum == sums.last();
    let longer = items.push(item);
    let longer_sums = sums.push(next);
    assert forall|i: int| 0 <= i < longer.len() implies gives(
        f,
        Calc::Add(longer_sums[i], #[trigger] longer[i]),
        longer_sums[i + 1],
    ) by {
        if i < items.len() {
            assert(longer[i] == items[i]);
        }
    }
    assert(running_sums(f, longer, longer_sums));
}

/// A limited number lies in the range, unless it is not a number.
pub proof fn law_limited_in_range(x: Single, low: Single, high: Single)
    requires
        !low.nan(),
        !high.nan(),
        low.rank() <= high.rank(),
    ensures
        !x.nan() ==> low.rank() <= x.limited(low, high).rank() <= high.rank(),
        x.nan() ==> x.limited(low, high) == x,
{
}

/// `f`, asked for `c`, answers `r` and nothing else.
pub open spec fn answers_only<F: Fn(Calc) -> Single>(f: F, c: Calc, r: Single) -> bool {
    forall|x: Single| #[trigger] gives(f, c, x) ==> x == r
}

/// The order of the numbers is that of the number line: of two numbers without a
/// sign the one with the smaller bits is the smaller, of two with a sign the other
/// one; a number with a sign lies below every one without, but for the two zeros,
/// which are equal.
pub proof fn law_order_of_numbers(a: Single, b: Single)
    requires
        a.bits <= 0x7f80_0000 || 0x8000_0000 <= a.bits <= 0xff80_0000,
        b.bits <= 0x7f80_0000 || 0x8000_0000 <= b.bits <= 0xff80_0000,
    ensures
        a.bits < 0x8000_0000 && b.bits < 0x8000_0000 ==> (a.below(b) <==> a.bits < b.bits),
        a.bits >= 0x8000_0000 && b.bits >= 0x8000_0000 ==> (a.below(b) <==> b.bits < a.bits),
        a.bits >= 0x8000_0000 && b.bits < 0x8000_0000 ==> (a.below(b) <==> !(a.bits == 0x8000_0000
            && b.bits == 0)),
        a.bits < 0x8000_0000 && b.bits >= 0x8000_0000 ==> !a.below(b),
{
}

/// What is not a number is neither below nor above anything.
pub proof fn law_no_number_has_no_place(a: Single, b: Single)
    requires
        0x7f80_0000 < a.bits < 0x8000_0000 || a.bits > 0xff80_0000,
    ensures
        !a.below(b),
        !b.below(a),
        a.nan(),
{
}

/// A number that lies in a range is left as it is by its limits; one below or
/// above it becomes the limit that it passed.
pub proof fn law_limits_change_outliers_only(x: Single, low: Single, high: Single)
    ensures
        !x.below(low) && !high.below(x) ==> x.limited(low, high) == x,
        x.below(low) ==> x.limited(low, high) == low,
        high.below(x) && !x.below(low) ==> x.limited(low, high) == high,
{
}

/// The lesser and the greater of two numbers are these numbers; neither is on the
/// wrong side of the other, and what is not a number gives way.
pub proof fn law_lesser_and_greater(x: Single, y: Single)
    ensures
        x.lesser(y) == x || x.lesser(y) == y,
        x.greater(y) == x || x.greater(y) == y,
        x.below(y) ==> x.lesser(y) == x && x.greater(y) == y,
        y.below(x) ==> x.lesser(y) == y && x.greater(y) == x,
        x.nan() ==> x.lesser(y) == y && x.greater(y) == y,
        y.nan() && !x.nan() ==> x.lesser(y) == x && x.greater(y) == x,
{
}

/// Without its sign a number keeps its size; a product with a sign is the size,
/// or its opposite.
pub proof fn law_sign_and_size(x: Single, size: Single)
    ensures
        x.bits < 0x8000_0000 ==> x.unsigned() == x,
        x.bits >= 0x8000_0000 ==> x.unsigned().bits == x.bits - 0x8000_0000,
        !x.nan() && x.bits < 0x8000_0000 ==> x.sign_times(size) == size,
        !x.nan() && x.bits >= 0x8000_0000 && size.bits < 0x8000_0000 ==> x.sign_times(size).bits
            == size.bits + 0x8000_0000,
        !x.nan() && x.bits >= 0x8000_0000 && size.bits >= 0x8000_0000 ==> x.sign_times(size).bits
            == size.bits - 0x8000_0000,
{
}

/// Items are added up one after the other from zero: where the arithmetic answers
/// `sums[i + 1]` for each of these steps, the last of them is the sum.
pub proof fn law_sum_is_step_by_step<F: Fn(Calc) -> Single>(
    f: F,
    items: Seq<Single>,
    sums: Seq<Single>,
    r: Single,
)
    requires
        sum_gives(f, items, r),
        sums.len() == items.len() + 1,
        sums[0].bits == 0,
        forall|i: int|
            0 <= i < items.len() ==> answers_only(
                f,
                Calc::Add(sums[i], #[trigger] items[i]),
                sums[i + 1],
            ),
    ensures
        r == sums.last(),
{
    let got = choose|got: Seq<Single>| #[trigger] running_sums(f, items, got) && r == got.last();
    lemma_same_sums(f, items, sums, got, items.len() as int);
}

proof fn lemma_same_sums<F: Fn(Calc) -> Single>(
    f: F,
    items: Seq<Single>,
    sums: Seq<Single>,
    got: Seq<Single>,
    n: int,
)
    requires
        running_sums(f, items, got),
        sums.len() == items.len() + 1,
        sums[0].bits == 0,
        forall|i: int|
            0 <= i < items.len() ==> answers_only(
                f,
                Calc::Add(sums[i], #[trigger] items[i]),
                sums[i + 1],
            ),
        0 <= n <= items.len(),
    ensures
        sums[n] == got[n],
    decreases n,
{
    if n > 0 {
        lemma_same_sums(f, items, sums, got, n - 1);
        assert(gives(f, Calc::Add(got[n - 1], items[n - 1]), got[n]));
    }
}

} // verus!
