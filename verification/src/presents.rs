//! The present-wrapping puzzle: a present is a box with three dimensions;
//! the paper for one box is twice the sum of its side areas plus the area
//! of its smallest side, and the ribbon is the smallest side's perimeter
//! plus the box's volume. Presents are read from `LxWxH` text.

use vstd::prelude::*;

use crate::text::{
    all_digits, chars_of, dec_rep, digits_val, parse_usize_digits, split_by, split_chars,
    string_of,
};

verus! {

/// A present: a box with three dimensions.
#[derive(Copy, Clone, PartialEq, Eq, Structural, Debug)]
pub struct Present {
    /// The length.
    pub l: usize,
    /// The width.
    pub w: usize,
    /// The height.
    pub h: usize,
}

/// The smaller of two numbers.
pub open spec fn min2(a: int, b: int) -> int {
    if a <= b {
        a
    } else {
        b
    }
}

/// The larger of two numbers.
pub open spec fn max2(a: int, b: int) -> int {
    if a >= b {
        a
    } else {
        b
    }
}

/// The paper one present needs: twice the sum of the side areas, plus the
/// smallest side's area as slack.
pub open spec fn wrap_spec(p: Present) -> int {
    let lw = p.l * p.w;
    let wh = p.w * p.h;
    let hl = p.h * p.l;
    2 * (lw + wh + hl) + min2(lw as int, min2(wh as int, hl as int))
}

/// The ribbon one present needs: the perimeter of the smallest side, plus
/// the volume as bow.
pub open spec fn ribbon_spec(p: Present) -> int {
    2 * (p.l + p.w + p.h - max2(p.l as int, max2(p.w as int, p.h as int))) + p.l * p.w * p.h
}

/// The paper amount is never negative.
pub proof fn lemma_wrap_nonneg(p: Present)
    ensures
        wrap_spec(p) >= 0,
{
    assert(p.l * p.w >= 0 && p.w * p.h >= 0 && p.h * p.l >= 0) by (nonlinear_arith);
}

/// The ribbon amount is never negative.
pub proof fn lemma_ribbon_nonneg(p: Present)
    ensures
        ribbon_spec(p) >= 0,
{
    assert(p.l * p.w * p.h >= 0) by (nonlinear_arith);
}

/// The intermediate values the ribbon computation walks through must fit
/// the machine: the plain dimension sum, the first partial product, and
/// the result itself.
pub open spec fn ribbon_fits(p: Present) -> bool {
    &&& p.l + p.w + p.h <= usize::MAX
    &&& p.l * p.w <= usize::MAX
    &&& ribbon_spec(p) <= usize::MAX
}

impl Present {
    /// A present with the given dimensions.
    pub fn new(l: usize, w: usize, h: usize) -> (r: Self)
        ensures
            r == (Present { l, w, h }),
    {
        Present { l, w, h }
    }

    /// The paper this present needs.
    pub fn wrap(&self) -> (r: usize)
        requires
            wrap_spec(*self) <= usize::MAX,
        ensures
            r as int == wrap_spec(*self),
    {
        proof {
            assert(self.l * self.w >= 0 && self.w * self.h >= 0 && self.h * self.l >= 0)
                by (nonlinear_arith);
        }
        let lw = self.l * self.w;
        let wh = self.w * self.h;
        let hl = self.h * self.l;
        let small = if lw <= wh && lw <= hl {
            lw
        } else if wh <= hl {
            wh
        } else {
            hl
        };
        2 * (lw + wh + hl) + small
    }

    /// The ribbon this present needs.
    pub fn ribbon(&self) -> (r: usize)
        requires
            ribbon_fits(*self),
        ensures
            r as int == ribbon_spec(*self),
    {
        proof {
            assert(self.l * self.w >= 0 && self.l * self.w * self.h >= 0) by (nonlinear_arith);
        }
        let largest = if self.l >= self.w && self.l >= self.h {
            self.l
        } else if self.w >= self.h {
            self.w
        } else {
            self.h
        };
        2 * (self.l + self.w + self.h - largest) + self.l * self.w * self.h
    }
}

/// The paper all presents need together.
pub open spec fn wrap_sum(ps: Seq<Present>) -> int
    decreases ps.len(),
{
    if ps.len() == 0 {
        0int
    } else {
        wrap_sum(ps.drop_last()) + wrap_spec(ps.last())
    }
}

/// The ribbon all presents need together.
pub open spec fn ribbon_sum(ps: Seq<Present>) -> int
    decreases ps.len(),
{
    if ps.len() == 0 {
        0int
    } else {
        ribbon_sum(ps.drop_last()) + ribbon_spec(ps.last())
    }
}

/// A prefix of the presents never needs more paper than all of them.
pub proof fn lemma_wrap_sum_prefix(ps: Seq<Present>, i: int)
    requires
        0 <= i <= ps.len(),
    ensures
        0 <= wrap_sum(ps.take(i)) <= wrap_sum(ps),
    decreases ps.len() - i,
{
    if i == ps.len() {
        assert(ps.take(i) =~= ps);
        lemma_wrap_take_nonneg(ps, i);
    } else {
        lemma_wrap_sum_prefix(ps, i + 1);
        assert(ps.take(i + 1).drop_last() =~= ps.take(i));
        lemma_wrap_nonneg(ps.take(i + 1).last());
        lemma_wrap_take_nonneg(ps, i);
    }
}

proof fn lemma_wrap_take_nonneg(ps: Seq<Present>, i: int)
    requires
        0 <= i <= ps.len(),
    ensures
        wrap_sum(ps.take(i)) >= 0,
    decreases i,
{
    if i > 0 {
        assert(ps.take(i).drop_last() =~= ps.take(i - 1));
        lemma_wrap_take_nonneg(ps, i - 1);
        lemma_wrap_nonneg(ps.take(i).last());
    }
}

/// A prefix of the presents never needs more ribbon than all of them.
pub proof fn lemma_ribbon_sum_prefix(ps: Seq<Present>, i: int)
    requires
        0 <= i <= ps.len(),
    ensures
        0 <= ribbon_sum(ps.take(i)) <= ribbon_sum(ps),
    decreases ps.len() - i,
{
    if i == ps.len() {
        assert(ps.take(i) =~= ps);
        lemma_ribbon_take_nonneg(ps, i);
    } else {
        lemma_ribbon_sum_prefix(ps, i + 1);
        assert(ps.take(i + 1).drop_last() =~= ps.take(i));
        lemma_ribbon_nonneg(ps.take(i + 1).last());
        lemma_ribbon_take_nonneg(ps, i);
    }
}

proof fn lemma_ribbon_take_nonneg(ps: Seq<Present>, i: int)
    requires
        0 <= i <= ps.len(),
    ensures
        ribbon_sum(ps.take(i)) >= 0,
    decreases i,
{
    if i > 0 {
        assert(ps.take(i).drop_last() =~= ps.take(i - 1));
        lemma_ribbon_take_nonneg(ps, i - 1);
        lemma_ribbon_nonneg(ps.take(i).last());
    }
}

/// The paper all presents need together.
pub fn wrap(presents: &Vec<Present>) -> (r: usize)
    requires
        forall|i: int| 0 <= i < presents@.len() ==> wrap_spec(presents@[i]) <= usize::MAX,
        wrap_sum(presents@) <= usize::MAX,
    ensures
        r as int == wrap_sum(presents@),
{
    let ghost ps = presents@;
    let mut total: usize = 0;
    let mut i: usize = 0;
    proof {
        assert(ps.take(0) =~= Seq::<Present>::empty());
    }
    while i < presents.len()
        invariant
            i <= ps.len(),
            ps == presents@,
            forall|q: int| 0 <= q < ps.len() ==> wrap_spec(ps[q]) <= usize::MAX,
            wrap_sum(ps) <= usize::MAX,
            total as int == wrap_sum(ps.take(i as int)),
        decreases ps.len() - i,
    {
        proof {
            assert(ps.take(i + 1).drop_last() =~= ps.take(i as int));
            assert(ps.take(i + 1).last() == ps[i as int]);
            lemma_wrap_sum_prefix(ps, i + 1);
        }
        let p = presents[i];
        let amount = p.wrap();
        total = total + amount;
        i = i + 1;
    }
    proof {
        assert(ps.take(i as int) =~= ps);
    }
    total
}

/// The ribbon all presents need together.
pub fn ribbon(presents: &Vec<Present>) -> (r: usize)
    requires
        forall|i: int| 0 <= i < presents@.len() ==> ribbon_fits(presents@[i]),
        ribbon_sum(presents@) <= usize::MAX,
    ensures
        r as int == ribbon_sum(presents@),
{
    let ghost ps = presents@;
    let mut total: usize = 0;
    let mut i: usize = 0;
    proof {
        assert(ps.take(0) =~= Seq::<Present>::empty());
    }
    while i < presents.len()
        invariant
            i <= ps.len(),
            ps == presents@,
            forall|q: int| 0 <= q < ps.len() ==> ribbon_fits(ps[q]),
            ribbon_sum(ps) <= usize::MAX,
            total as int == ribbon_sum(ps.take(i as int)),
        decreases ps.len() - i,
    {
        proof {
            assert(ps.take(i + 1).drop_last() =~= ps.take(i as int));
            assert(ps.take(i + 1).last() == ps[i as int]);
            lemma_ribbon_sum_prefix(ps, i + 1);
        }
        let p = presents[i];
        let amount = p.ribbon();
        total = total + amount;
        i = i + 1;
    }
    proof {
        assert(ps.take(i as int) =~= ps);
    }
    total
}

/// Why a present failed to parse.
#[derive(Debug, PartialEq, Eq, Structural, Copy, Clone)]
pub enum PresentParseError {
    /// Some dimension is not an in-range number.
    InvalidNumber,
    /// The text does not hold exactly three dimensions.
    WrongDimensionCount,
}

impl PresentParseError {
    /// The message this error is reported with.
    pub fn message(&self) -> (r: String)
        ensures
            *self is InvalidNumber ==> r@ == "invalid present dimension"@,
            *self is WrongDimensionCount ==> r@
                == "Present should have exactly three diminsions!"@,
    {
        match self {
            PresentParseError::InvalidNumber => "invalid present dimension".to_owned(),
            PresentParseError::WrongDimensionCount =>
                "Present should have exactly three diminsions!".to_owned(),
        }
    }
}

/// The number a dimension field denotes: decimal digits after an optional
/// plus sign, in machine range.
pub open spec fn parse_dim(p: Seq<char>) -> Option<int> {
    let body = if p.len() > 0 && p[0] == '+' {
        p.drop_first()
    } else {
        p
    };
    if all_digits(body) && digits_val(body) <= usize::MAX {
        Some(digits_val(body))
    } else {
        None
    }
}

/// Whether every field of the split denotes a number.
pub open spec fn all_dims_parse(pieces: Seq<Seq<char>>) -> bool {
    forall|i: int| 0 <= i < pieces.len() ==> !(parse_dim(pieces[i]) is None)
}

fn parse_dim_field(p: &Vec<char>) -> (r: Option<usize>)
    ensures
        match r {
            Some(n) => parse_dim(p@) == Some(n as int),
            None => parse_dim(p@) is None,
        },
{
    let from: usize = if p.len() > 0 && p[0] == '+' {
        1
    } else {
        0
    };
    proof {
        if p@.len() > 0 && p@[0] == '+' {
            assert(p@.subrange(1, p@.len() as int) =~= p@.drop_first());
        } else {
            assert(p@.subrange(0, p@.len() as int) =~= p@);
        }
    }
    parse_usize_digits(p, from, p.len())
}

impl Present {
    /// Reads a present from `LxWxH` text: the fields between the `x`
    /// separators must all be numbers, and there must be exactly three of
    /// them. A field that is no number is reported before a wrong count.
    pub fn from_str(s: &str) -> (r: Result<Present, PresentParseError>)
        ensures
            ({
                let pieces = split_by(s@, 'x');
                match r {
                    Ok(p) => all_dims_parse(pieces) && pieces.len() == 3 && parse_dim(pieces[0])
                        == Some(p.l as int) && parse_dim(pieces[1]) == Some(p.w as int)
                        && parse_dim(pieces[2]) == Some(p.h as int),
                    Err(e) => (e is InvalidNumber && !all_dims_parse(pieces)) || (
                    e is WrongDimensionCount && all_dims_parse(pieces) && pieces.len() != 3),
                }
            }),
    {
        let buf = chars_of(s);
        let pieces = split_chars(&buf, 'x');
        let ghost sp = split_by(s@, 'x');
        assert(pieces.deep_view() == sp);
        let mut dims: Vec<usize> = Vec::new();
        let mut j: usize = 0;
        while j < pieces.len()
            invariant
                j <= pieces@.len(),
                pieces.deep_view() == sp,
                sp == split_by(s@, 'x'),
                sp.len() == pieces@.len(),
                dims@.len() == j,
                forall|q: int| 0 <= q < j ==> parse_dim(sp[q]) == Some(dims@[q] as int),
            decreases pieces@.len() - j,
        {
            assert(pieces[j as int]@ == sp[j as int]);
            match parse_dim_field(&pieces[j]) {
                Some(n) => {
                    dims.push(n);
                },
                None => {
                    assert(!all_dims_parse(sp)) by {
                        assert(0 <= (j as int) < sp.len() && parse_dim(sp[j as int]) is None);
                    }
                    return Err(PresentParseError::InvalidNumber);
                },
            }
            j = j + 1;
        }
        assert(all_dims_parse(sp));
        if dims.len() != 3 {
            return Err(PresentParseError::WrongDimensionCount);
        }
        Ok(Present { l: dims[0], w: dims[1], h: dims[2] })
    }

    /// The present as `LxWxH` text.
    pub fn to_text(&self) -> (r: String)
        ensures
            r@ == dec_rep(self.l as nat) + "x"@ + dec_rep(self.w as nat) + "x"@ + dec_rep(
                self.h as nat,
            ),
    {
        let mut v = crate::text::dec_of(self.l);
        let mut x1 = chars_of("x");
        let mut wv = crate::text::dec_of(self.w);
        let mut x2 = chars_of("x");
        let mut hv = crate::text::dec_of(self.h);
        v.append(&mut x1);
        v.append(&mut wv);
        v.append(&mut x2);
        v.append(&mut hv);
        let r = string_of(&v);
        assert(r@ =~= dec_rep(self.l as nat) + "x"@ + dec_rep(self.w as nat) + "x"@ + dec_rep(
            self.h as nat,
        ));
        r
    }
}

} // verus!
