use crate::error::GradientError;
use crate::geometry::ImageSize;
use vstd::prelude::*;

verus! {

/// One pixel of an image, by channel.
#[derive(Debug, Clone, Copy, PartialEq, Eq, Structural)]
pub struct Color {
    pub blue: u8,
    pub green: u8,
    pub red: u8,
}

/// Black, the colour reported for a band that selects no pixel.
pub open spec fn black() -> Color {
    Color { blue: 0, green: 0, red: 0 }
}

/// A non-empty raster of three-channel pixels. The bytes are stored row by
/// row, each pixel as blue, green, red.
#[derive(Debug)]
pub struct Image {
    size: ImageSize,
    data: Vec<u8>,
}

/// A grid of whole numbers, one per pixel, stored row by row.
#[derive(Debug)]
pub struct ScalarField {
    size: ImageSize,
    values: Vec<i64>,
}

/// A grid of booleans, one per pixel, stored row by row.
#[derive(Debug)]
pub struct Mask {
    size: ImageSize,
    bits: Vec<bool>,
}

/// Number of `true` entries among the first `n` of `bits`.
pub open spec fn count_set(bits: Seq<bool>, n: nat) -> nat
    decreases n,
{
    if n == 0 {
        0
    } else {
        count_set(bits, (n - 1) as nat) + if bits[n - 1] {
            1nat
        } else {
            0nat
        }
    }
}

/// A prefix with a `true` entry counts at least one; a prefix without any
/// counts none.
pub proof fn lemma_count_set_zero(bits: Seq<bool>, n: nat)
    ensures
        count_set(bits, n) == 0 <==> forall|i: int| 0 <= i < n ==> !bits[i],
    decreases n,
{
    if n > 0 {
        lemma_count_set_zero(bits, (n - 1) as nat);
        if count_set(bits, n) == 0 {
            assert forall|i: int| 0 <= i < n implies !bits[i] by {
                if i < n - 1 {
                }
            }
        }
    }
}

/// `m` occurs in `s` and nothing in `s` is below it.
pub open spec fn is_minimum(s: Seq<i64>, m: i64) -> bool {
    &&& exists|i: int| 0 <= i < s.len() && s[i] == m
    &&& forall|i: int| 0 <= i < s.len() ==> m <= s[i]
}

/// `m` occurs in `s` and nothing in `s` is above it.
pub open spec fn is_maximum(s: Seq<i64>, m: i64) -> bool {
    &&& exists|i: int| 0 <= i < s.len() && s[i] == m
    &&& forall|i: int| 0 <= i < s.len() ==> s[i] <= m
}

/// The least value of a sequence that has one.
pub open spec fn least(s: Seq<i64>) -> i64 {
    choose|m: i64| is_minimum(s, m)
}

/// The greatest value of a sequence that has one.
pub open spec fn greatest(s: Seq<i64>) -> i64 {
    choose|m: i64| is_maximum(s, m)
}

/// A sequence has one minimum and one maximum at most, so whatever is a
/// minimum is `least`, and whatever is a maximum is `greatest`.
pub proof fn lemma_extremes_unique(s: Seq<i64>, lo: i64, hi: i64)
    requires
        is_minimum(s, lo),
        is_maximum(s, hi),
    ensures
        lo == least(s),
        hi == greatest(s),
        lo <= hi,
{
    assert(is_minimum(s, least(s)));
    assert(is_maximum(s, greatest(s)));
}

/// Every non-empty prefix of a sequence has a minimum and a maximum.
pub proof fn lemma_extremes_exist(s: Seq<i64>, n: nat)
    requires
        0 < n <= s.len(),
    ensures
        exists|m: i64| is_minimum(s.take(n as int), m),
        exists|m: i64| is_maximum(s.take(n as int), m),
        n == s.len() ==> is_minimum(s, least(s)) && is_maximum(s, greatest(s)),
    decreases n,
{
    let p = s.take(n as int);
    if n == 1 {
        assert(p[0] == s[0]);
        assert(is_minimum(p, s[0]));
        assert(is_maximum(p, s[0]));
    } else {
        lemma_extremes_exist(s, (n - 1) as nat);
        let q = s.take(n - 1);
        let lo = choose|m: i64| is_minimum(q, m);
        let hi = choose|m: i64| is_maximum(q, m);
        let v = s[n - 1];
        let lo2 = if v < lo {
            v
        } else {
            lo
        };
        let hi2 = if v > hi {
            v
        } else {
            hi
        };
        let i = choose|i: int| 0 <= i < q.len() && q[i] == lo;
        let j = choose|j: int| 0 <= j < q.len() && q[j] == hi;
        assert(p[i] == lo && p[j] == hi && p[n - 1] == v);
        assert forall|k: int| 0 <= k < p.len() implies lo2 <= #[trigger] p[k] && p[k] <= hi2 by {
            if k < n - 1 {
                assert(q[k] == p[k]);
            }
        }
        assert(is_minimum(p, lo2));
        assert(is_maximum(p, hi2));
    }
    if n == s.len() {
        assert(p =~= s);
    }
}

impl Image {
    /// Width and height.
    pub closed spec fn spec_size(&self) -> ImageSize {
        self.size
    }

    /// The stored bytes, three per pixel.
    pub closed spec fn bytes(&self) -> Seq<u8> {
        self.data@
    }

    /// The image has pixels, and three bytes for each.
    #[verifier::type_invariant]
    pub open spec fn wf(&self) -> bool {
        &&& !self.spec_size().is_empty()
        &&& self.bytes().len() == 3 * self.spec_size().area()
    }

    /// The pixel with index `i`, counted row by row.
    pub open spec fn pixel(&self, i: int) -> Color {
        Color {
            blue: self.bytes()[3 * i],
            green: self.bytes()[3 * i + 1],
            red: self.bytes()[3 * i + 2],
        }
    }

    /// Takes over a pixel buffer of the given size.
    ///
    /// A size without pixels is rejected with `EmptyImage`, a buffer whose
    /// length is not three bytes per pixel with `InvalidInput`.
    pub fn new(size: ImageSize, data: Vec<u8>) -> (r: Result<Image, GradientError>)
        ensures
            size.is_empty() ==> r is Err && r->Err_0 == GradientError::EmptyImage,
            !size.is_empty() && data@.len() != 3 * size.area() ==> r is Err && r->Err_0
                == GradientError::InvalidInput,
            !size.is_empty() && data@.len() == 3 * size.area() ==> r is Ok && r->Ok_0.wf()
                && r->Ok_0.spec_size() == size && r->Ok_0.bytes() == data@,
    {
        if size.width == 0 || size.height == 0 {
            return Err(GradientError::EmptyImage);
        }
        let area: u128 = size.cell_count() as u128;
        if data.len() as u128 != 3 * area {
            return Err(GradientError::InvalidInput);
        }
        Ok(Image { size, data })
    }

    /// Width and height.
    #[verifier::when_used_as_spec(spec_size)]
    pub fn size(&self) -> (s: ImageSize)
        ensures
            s == self.spec_size(),
    {
        self.size
    }

    /// The pixel with index `i`, counted row by row.
    pub fn pixel_at(&self, i: usize) -> (c: Color)
        requires
            i < self.spec_size().area(),
        ensures
            c == self.pixel(i as int),
    {
        proof {
            use_type_invariant(self);
        }
        let n = self.data.len();
        assert(3 * i + 2 < n);
        Color { blue: self.data[3 * i], green: self.data[3 * i + 1], red: self.data[3 * i + 2] }
    }
}

impl View for Image {
    type V = Seq<Color>;

    /// The pixels, row by row.
    open spec fn view(&self) -> Seq<Color> {
        Seq::new(self.spec_size().area(), |i: int| self.pixel(i))
    }
}

impl ScalarField {
    /// Width and height.
    pub closed spec fn spec_size(&self) -> ImageSize {
        self.size
    }

    /// The values, row by row.
    pub closed spec fn view(&self) -> Seq<i64> {
        self.values@
    }

    /// The grid has cells, and one value for each.
    #[verifier::type_invariant]
    pub open spec fn wf(&self) -> bool {
        &&& !self.spec_size().is_empty()
        &&& self@.len() == self.spec_size().area()
    }

    /// Takes over a buffer of values of the given size.
    ///
    /// A size without cells is rejected with `EmptyImage`, a buffer whose
    /// length is not one value per cell with `InvalidInput`.
    pub fn new(size: ImageSize, values: Vec<i64>) -> (r: Result<ScalarField, GradientError>)
        ensures
            size.is_empty() ==> r is Err && r->Err_0 == GradientError::EmptyImage,
            !size.is_empty() && values@.len() != size.area() ==> r is Err && r->Err_0
                == GradientError::InvalidInput,
            !size.is_empty() && values@.len() == size.area() ==> r is Ok && r->Ok_0.wf()
                && r->Ok_0.spec_size() == size && r->Ok_0@ == values@,
    {
        if size.width == 0 || size.height == 0 {
            return Err(GradientError::EmptyImage);
        }
        if values.len() as u128 != size.cell_count() as u128 {
            return Err(GradientError::InvalidInput);
        }
        Ok(ScalarField::of_cells(size, values))
    }

    /// Takes over a buffer that is known to fit the size.
    pub(crate) fn of_cells(size: ImageSize, values: Vec<i64>) -> (f: ScalarField)
        requires
            !size.is_empty(),
            values@.len() == size.area(),
        ensures
            f.wf(),
            f.spec_size() == size,
            f@ == values@,
    {
        ScalarField { size, values }
    }

    /// Width and height.
    #[verifier::when_used_as_spec(spec_size)]
    pub fn size(&self) -> (s: ImageSize)
        ensures
            s == self.spec_size(),
    {
        self.size
    }

    /// Number of cells.
    pub fn len(&self) -> (n: usize)
        ensures
            n == self@.len(),
            n == self.spec_size().area(),
            n > 0,
    {
        proof {
            use_type_invariant(self);
        }
        let cells = self.size.cell_count();
        self.values.len()
    }

    /// The value of cell `i`, counted row by row.
    pub fn value_at(&self, i: usize) -> (v: i64)
        requires
            i < self@.len(),
        ensures
            v == self@[i as int],
    {
        proof {
            use_type_invariant(self);
        }
        self.values[i]
    }

    /// The least and the greatest value of the grid.
    pub fn min_max(&self) -> (r: (i64, i64))
        ensures
            is_minimum(self@, r.0),
            is_maximum(self@, r.1),
            r.0 == least(self@),
            r.1 == greatest(self@),
    {
        proof {
            use_type_invariant(self);
        }
        let n = self.len();
        let mut lo: i64 = self.values[0];
        let mut hi: i64 = self.values[0];
        let ghost mut lo_at: int = 0;
        let ghost mut hi_at: int = 0;
        let mut i: usize = 1;
        while i < n
            invariant
                1 <= i <= n,
                n == self.values@.len(),
                0 <= lo_at < i,
                0 <= hi_at < i,
                self.values@[lo_at] == lo,
                self.values@[hi_at] == hi,
                forall|k: int|
                    0 <= k < i ==> lo <= #[trigger] self.values@[k] && self.values@[k] <= hi,
            decreases n - i,
        {
            let v: i64 = self.values[i];
            if v < lo {
                lo = v;
                proof {
                    lo_at = i as int;
                }
            }
            if v > hi {
                hi = v;
                proof {
                    hi_at = i as int;
                }
            }
            i += 1;
        }
        proof {
            lemma_extremes_unique(self@, lo, hi);
        }
        (lo, hi)
    }
}

impl Mask {
    /// Width and height.
    pub closed spec fn spec_size(&self) -> ImageSize {
        self.size
    }

    /// The entries, row by row.
    pub closed spec fn view(&self) -> Seq<bool> {
        self.bits@
    }

    /// The grid has cells, and one entry for each.
    #[verifier::type_invariant]
    pub open spec fn wf(&self) -> bool {
        &&& !self.spec_size().is_empty()
        &&& self@.len() == self.spec_size().area()
    }

    /// Number of selected cells.
    pub open spec fn spec_count(&self) -> nat {
        count_set(self@, self@.len())
    }

    /// Takes over a buffer of entries of the given size.
    ///
    /// A size without cells is rejected with `EmptyImage`, a buffer whose
    /// length is not one entry per cell with `InvalidInput`.
    pub fn new(size: ImageSize, bits: Vec<bool>) -> (r: Result<Mask, GradientError>)
        ensures
            size.is_empty() ==> r is Err && r->Err_0 == GradientError::EmptyImage,
            !size.is_empty() && bits@.len() != size.area() ==> r is Err && r->Err_0
                == GradientError::InvalidInput,
            !size.is_empty() && bits@.len() == size.area() ==> r is Ok && r->Ok_0.wf()
                && r->Ok_0.spec_size() == size && r->Ok_0@ == bits@,
    {
        if size.width == 0 || size.height == 0 {
            return Err(GradientError::EmptyImage);
        }
        if bits.len() as u128 != size.cell_count() as u128 {
            return Err(GradientError::InvalidInput);
        }
        Ok(Mask::of_cells(size, bits))
    }

    /// Takes over a buffer that is known to fit the size.
    pub(crate) fn of_cells(size: ImageSize, bits: Vec<bool>) -> (m: Mask)
        requires
            !size.is_empty(),
            bits@.len() == size.area(),
        ensures
            m.wf(),
            m.spec_size() == size,
            m@ == bits@,
    {
        Mask { size, bits }
    }

    /// Width and height.
    #[verifier::when_used_as_spec(spec_size)]
    pub fn size(&self) -> (s: ImageSize)
        ensures
            s == self.spec_size(),
    {
        self.size
    }

    /// Number of cells.
    pub fn len(&self) -> (n: usize)
        ensures
            n == self@.len(),
            n == self.spec_size().area(),
    {
        proof {
            use_type_invariant(self);
        }
        self.bits.len()
    }

    /// Whether cell `i`, counted row by row, is selected.
    pub fn is_set(&self, i: usize) -> (b: bool)
        requires
            i < self@.len(),
        ensures
            b == self@[i as int],
    {
        proof {
            use_type_invariant(self);
        }
        self.bits[i]
    }

    /// Number of selected cells.
    pub fn count(&self) -> (n: usize)
        ensures
            n == self.spec_count(),
    {
        proof {
            use_type_invariant(self);
        }
        let total = self.bits.len();
        let mut n: usize = 0;
        let mut i: usize = 0;
        while i < total
            invariant
                i <= total,
                total == self.bits@.len(),
                n == count_set(self.bits@, i as nat),
                n <= i,
            decreases total - i,
        {
            if self.bits[i] {
                n += 1;
            }
            i += 1;
        }
        n
    }
}

} // verus!
