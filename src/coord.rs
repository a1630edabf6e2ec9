use crate::parse::{fields, find_comma, i32_value, read_i32, trim_range, Axis, CharClass, ParseError};
use vstd::laws_eq::obeys_concrete_eq;
use vstd::prelude::*;
use vstd::std_specs::ops::{AddSpec, MulSpec};

verus! {

/// A point on the integer grid.
#[derive(Clone, Copy, Debug, Hash)]
pub struct Cartesian {
    pub x: i32,
    pub y: i32,
}

impl PartialEq for Cartesian {
    fn eq(&self, other: &Cartesian) -> (r: bool) {
        self.x == other.x && self.y == other.y
    }
}

impl vstd::std_specs::cmp::PartialEqSpecImpl for Cartesian {
    open spec fn obeys_eq_spec() -> bool {
        true
    }

    open spec fn eq_spec(&self, other: &Cartesian) -> bool {
        self.x == other.x && self.y == other.y
    }
}

impl Eq for Cartesian {}

/// `==` on points agrees with equality of their coordinates.
pub proof fn lemma_cartesian_eq_is_equality()
    ensures
        obeys_concrete_eq::<Cartesian>(),
{
    reveal(obeys_concrete_eq);
}

/// Absolute value of a mathematical integer.
pub open spec fn abs(v: int) -> nat {
    if v < 0 {
        (-v) as nat
    } else {
        v as nat
    }
}

impl Cartesian {
    /// The point `dx` columns and `dy` rows away, for offsets that stay within `i32`.
    pub open spec fn offset(self, dx: int, dy: int) -> Cartesian {
        Cartesian { x: (self.x + dx) as i32, y: (self.y + dy) as i32 }
    }

    /// Every point one step away in either axis is representable.
    pub open spec fn has_room(self) -> bool {
        &&& i32::MIN < self.x < i32::MAX
        &&& i32::MIN < self.y < i32::MAX
    }

    /// West, north, east, south.
    pub open spec fn spec_neigh4(self) -> Seq<Cartesian> {
        seq![self.offset(-1, 0), self.offset(0, 1), self.offset(1, 0), self.offset(0, -1)]
    }

    /// Clockwise, starting west.
    pub open spec fn spec_neigh8(self) -> Seq<Cartesian> {
        seq![
            self.offset(-1, 0),
            self.offset(-1, 1),
            self.offset(0, 1),
            self.offset(1, 1),
            self.offset(1, 0),
            self.offset(1, -1),
            self.offset(0, -1),
            self.offset(-1, -1),
        ]
    }

    /// Sum of the absolute differences along each axis.
    pub open spec fn manhattan(self, other: Cartesian) -> nat {
        abs(self.x - other.x) + abs(self.y - other.y)
    }

    /// Both coordinates differ by at most one.
    pub open spec fn touches(self, other: Cartesian) -> bool {
        abs(self.x - other.x) <= 1 && abs(self.y - other.y) <= 1
    }

    pub fn new(x: i32, y: i32) -> (r: Cartesian)
        ensures
            r.x == x,
            r.y == y,
    {
        Cartesian { x: x, y: y }
    }

    /// Creates a list of points around `self` excluding diagonal
    pub fn neigh4(&self) -> (r: Vec<Cartesian>)
        requires
            self.has_room(),
        ensures
            r@ == self.spec_neigh4(),
            r@.len() == 4,
            forall|i: int| 0 <= i < 4 ==> #[trigger] r@[i].manhattan(*self) == 1,
    {
        let x = self.x;
        let y = self.y;
        let r = vec![
            Cartesian::new(x - 1, y),
            Cartesian::new(x, y + 1),
            Cartesian::new(x + 1, y),
            Cartesian::new(x, y - 1),
        ];
        assert(r@ =~= self.spec_neigh4());
        r
    }

    /// Creates a list of points around `self` including diagonal
    pub fn neigh8(&self) -> (r: Vec<Cartesian>)
        requires
            self.has_room(),
        ensures
            r@ == self.spec_neigh8(),
            r@.len() == 8,
            forall|i: int| 0 <= i < 8 ==> #[trigger] r@[i].touches(*self) && r@[i] != *self,
    {
        let x = self.x;
        let y = self.y;
        let r = vec![
            Cartesian::new(x - 1, y),
            Cartesian::new(x - 1, y + 1),
            Cartesian::new(x, y + 1),
            Cartesian::new(x + 1, y + 1),
            Cartesian::new(x + 1, y),
            Cartesian::new(x + 1, y - 1),
            Cartesian::new(x, y - 1),
            Cartesian::new(x - 1, y - 1),
        ];
        assert(r@ =~= self.spec_neigh8());
        r
    }

    /// Calculate the manhattan distance between two points
    pub fn manhattan_distance(&self, other: &Self) -> (r: usize)
        requires
            self.manhattan(*other) <= usize::MAX,
        ensures
            r == self.manhattan(*other),
    {
        let dx = self.x as i64 - other.x as i64;
        let dy = self.y as i64 - other.y as i64;
        let x_dist: i64 = if dx < 0 { -dx } else { dx };
        let y_dist: i64 = if dy < 0 { -dy } else { dy };
        (x_dist + y_dist) as usize
    }
}

/// What parsing `s` gives: the fields' values, or the first field that fails.
pub open spec fn parse_result(s: Seq<char>, r: Result<Cartesian, ParseError>) -> bool {
    match fields(s) {
        None => r == Err::<Cartesian, ParseError>(ParseError::MalformedInput),
        Some((fx, fy)) => match (i32_value(fx), i32_value(fy)) {
            (Some(x), Some(y)) => r == Ok::<Cartesian, ParseError>(Cartesian { x, y }),
            (None, _) => r matches Err(ParseError::InvalidInteger { field, text }) && field == Axis::X
                && text@ == fx,
            (Some(_), None) => r matches Err(ParseError::InvalidInteger { field, text }) && field
                == Axis::Y && text@ == fy,
        },
    }
}

impl Cartesian {
    /// Reads `(x, y)`, `(x,y)` or `x,y`: parentheses are stripped from both
    /// ends, the rest is split at its first comma, and each side is trimmed
    /// and read as a decimal `i32`.
    pub fn parse(s: &str) -> (r: Result<Cartesian, ParseError>)
        ensures
            parse_result(s@, r),
    {
        let n = s.unicode_len();
        let (lo, hi) = trim_range(s, 0, n, &CharClass::Paren);
        let ghost t = s@.subrange(lo as int, hi as int);
        assert(s@.subrange(0, n as int) =~= s@);
        let k = find_comma(s, lo, hi);
        if k == hi {
            return Err(ParseError::MalformedInput);
        }
        assert(t.subrange(0, k - lo) =~= s@.subrange(lo as int, k as int));
        assert(t.subrange(k - lo + 1, t.len() as int) =~= s@.subrange(k + 1, hi as int));
        let (xlo, xhi) = trim_range(s, lo, k, &CharClass::Space);
        let (ylo, yhi) = trim_range(s, k + 1, hi, &CharClass::Space);
        let x = match read_i32(s, xlo, xhi) {
            Some(v) => v,
            None => {
                let text = s.substring_char(xlo, xhi).to_owned();
                return Err(ParseError::InvalidInteger { field: Axis::X, text });
            },
        };
        let y = match read_i32(s, ylo, yhi) {
            Some(v) => v,
            None => {
                let text = s.substring_char(ylo, yhi).to_owned();
                return Err(ParseError::InvalidInteger { field: Axis::Y, text });
            },
        };
        Ok(Cartesian { x, y })
    }
}

impl core::str::FromStr for Cartesian {
    type Err = ParseError;

    fn from_str(s: &str) -> (r: Result<Cartesian, ParseError>)
        ensures
            parse_result(s@, r),
    {
        Cartesian::parse(s)
    }
}

impl Cartesian {
    /// Both coordinate sums fit in `i32`.
    pub open spec fn can_add(self, other: Cartesian) -> bool {
        &&& i32::MIN <= self.x + other.x <= i32::MAX
        &&& i32::MIN <= self.y + other.y <= i32::MAX
    }

    /// Both coordinate products fit in `i32`.
    pub open spec fn can_scale(self, k: i32) -> bool {
        &&& i32::MIN <= self.x * k <= i32::MAX
        &&& i32::MIN <= self.y * k <= i32::MAX
    }

    /// The component-wise sum.
    pub open spec fn sum(self, other: Cartesian) -> Cartesian {
        Cartesian { x: (self.x + other.x) as i32, y: (self.y + other.y) as i32 }
    }

    /// Both components multiplied by `k`.
    pub open spec fn scaled(self, k: i32) -> Cartesian {
        Cartesian { x: (self.x * k) as i32, y: (self.y * k) as i32 }
    }

    /// The component-wise sum, wrapped to `i32`.
    pub open spec fn wrapping_sum(self, other: Cartesian) -> Cartesian {
        Cartesian { x: self.x.wrapping_add(other.x), y: self.y.wrapping_add(other.y) }
    }

    /// Both components multiplied by `k`, wrapped to `i32`.
    pub open spec fn wrapping_scaled(self, k: i32) -> Cartesian {
        Cartesian { x: self.x.wrapping_mul(k), y: self.y.wrapping_mul(k) }
    }
}

impl core::ops::Add for Cartesian {
    type Output = Cartesian;

    fn add(self, other: Cartesian) -> (r: Cartesian)
        ensures
            r == self.sum(other),
    {
        Cartesian { x: self.x + other.x, y: self.y + other.y }
    }
}

impl vstd::std_specs::ops::AddSpecImpl for Cartesian {
    open spec fn obeys_add_spec() -> bool {
        true
    }

    open spec fn add_req(self, other: Cartesian) -> bool {
        self.can_add(other)
    }

    open spec fn add_spec(self, other: Cartesian) -> Cartesian {
        self.sum(other)
    }
}

impl<'a> core::ops::Add for &'a Cartesian {
    type Output = Cartesian;

    fn add(self, other: Self) -> (r: Cartesian)
        ensures
            r == self.sum(*other),
    {
        Cartesian { x: self.x + other.x, y: self.y + other.y }
    }
}

impl<'a> vstd::std_specs::ops::AddSpecImpl for &'a Cartesian {
    open spec fn obeys_add_spec() -> bool {
        true
    }

    open spec fn add_req(self, other: Self) -> bool {
        self.can_add(*other)
    }

    open spec fn add_spec(self, other: Self) -> Cartesian {
        self.sum(*other)
    }
}

impl core::ops::AddAssign for Cartesian {
    /// Adds `other` in place; a sum outside `i32` wraps.
    fn add_assign(&mut self, other: Cartesian)
        ensures
            *final(self) == old(self).wrapping_sum(other),
            old(self).can_add(other) ==> *final(self) == old(self).sum(other),
    {
        self.x = self.x.wrapping_add(other.x);
        self.y = self.y.wrapping_add(other.y);
    }
}

impl<'a> core::ops::AddAssign<&'a Cartesian> for Cartesian {
    /// Adds `other` in place; a sum outside `i32` wraps.
    fn add_assign(&mut self, other: &Cartesian)
        ensures
            *final(self) == old(self).wrapping_sum(*other),
            old(self).can_add(*other) ==> *final(self) == old(self).sum(*other),
    {
        self.x = self.x.wrapping_add(other.x);
        self.y = self.y.wrapping_add(other.y);
    }
}

impl core::ops::Mul<i32> for Cartesian {
    type Output = Cartesian;

    fn mul(self, k: i32) -> (r: Cartesian)
        ensures
            r == self.scaled(k),
    {
        Cartesian { x: self.x * k, y: self.y * k }
    }
}

impl vstd::std_specs::ops::MulSpecImpl<i32> for Cartesian {
    open spec fn obeys_mul_spec() -> bool {
        true
    }

    open spec fn mul_req(self, k: i32) -> bool {
        self.can_scale(k)
    }

    open spec fn mul_spec(self, k: i32) -> Cartesian {
        self.scaled(k)
    }
}

impl<'a> core::ops::Mul<i32> for &'a Cartesian {
    type Output = Cartesian;

    fn mul(self, k: i32) -> (r: Cartesian)
        ensures
            r == self.scaled(k),
    {
        Cartesian { x: self.x * k, y: self.y * k }
    }
}

impl<'a> vstd::std_specs::ops::MulSpecImpl<i32> for &'a Cartesian {
    open spec fn obeys_mul_spec() -> bool {
        true
    }

    open spec fn mul_req(self, k: i32) -> bool {
        self.can_scale(k)
    }

    open spec fn mul_spec(self, k: i32) -> Cartesian {
        self.scaled(k)
    }
}

impl core::ops::MulAssign<i32> for Cartesian {
    /// Scales in place; a product outside `i32` wraps.
    fn mul_assign(&mut self, k: i32)
        ensures
            *final(self) == old(self).wrapping_scaled(k),
            old(self).can_scale(k) ==> *final(self) == old(self).scaled(k),
    {
        self.x = self.x.wrapping_mul(k);
        self.y = self.y.wrapping_mul(k);
    }
}

/// Adding two points adds their coordinates, and gives the same point whether
/// the operands are values or references.
pub proof fn lemma_add_componentwise(x1: i32, y1: i32, x2: i32, y2: i32)
    requires
        i32::MIN <= x1 + x2 <= i32::MAX,
        i32::MIN <= y1 + y2 <= i32::MAX,
    ensures
        ({
            let p = Cartesian { x: x1, y: y1 };
            let q = Cartesian { x: x2, y: y2 };
            &&& p.add_req(q)
            &&& (&p).add_req(&q)
            &&& p.add_spec(q).x == x1 + x2
            &&& p.add_spec(q).y == y1 + y2
            &&& (&p).add_spec(&q) == p.add_spec(q)
        }),
{
}

/// Scaling by one keeps a point; scaling by zero gives the origin.
pub proof fn lemma_scale_one_zero(p: Cartesian)
    ensures
        p.mul_req(1) && p.mul_spec(1) == p,
        p.mul_req(0) && p.mul_spec(0) == (Cartesian { x: 0, y: 0 }),
        (&p).mul_spec(1) == p,
        (&p).mul_spec(0) == (Cartesian { x: 0, y: 0 }),
{
}

/// Manhattan distance is symmetric and zero from a point to itself.
pub proof fn lemma_manhattan_symmetric(p: Cartesian, q: Cartesian)
    ensures
        p.manhattan(q) == q.manhattan(p),
        p.manhattan(p) == 0,
{
}

} // verus!
