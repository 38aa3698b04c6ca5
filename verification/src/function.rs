//! A function to plot, sampled at whole steps.

use vstd::prelude::*;

use crate::types::Scales;

verus! {

/// The number of whole steps from `x_i` to `x_f`, both included; none where `x_f` is the
/// smaller.
pub open spec fn span(x_i: u32, x_f: u32) -> nat {
    if x_i <= x_f {
        (x_f - x_i + 1) as nat
    } else {
        0
    }
}

/// Whether `ys` holds, in step order, a value that `f` may give at each step from `x_i` to
/// `x_f`, both included.
pub open spec fn samples_of<F: Fn(u32) -> i64>(f: F, x_i: u32, x_f: u32, ys: Seq<i64>) -> bool {
    &&& ys.len() == span(x_i, x_f)
    &&& forall|k: int| 0 <= k < ys.len() ==> call_ensures(f, ((x_i + k) as u32,), #[trigger] ys[k])
}

/// The step at which the mapping is asked for the stretched step `x * factor`: that product,
/// or the last step there is where the product lies beyond it.
pub open spec fn stretched_step(x: u32, factor: u32) -> u32 {
    if x * factor > u32::MAX {
        u32::MAX
    } else {
        (x * factor) as u32
    }
}

/// The value `y` stretched by `factor`, as far as 64 bits hold it.
pub open spec fn stretched_value(y: i64, factor: i64) -> i64 {
    if y * factor > i64::MAX {
        i64::MAX
    } else if y * factor < i64::MIN {
        i64::MIN
    } else {
        (y * factor) as i64
    }
}

/// A mapping from steps to values, wrapped for sampling.
pub struct Function<F: Fn(u32) -> i64> {
    f: F,
}

impl<F: Fn(u32) -> i64> Function<F> {
    /// The mapping that is wrapped.
    pub closed spec fn inner(self) -> F {
        self.f
    }

    /// Whether the mapping may be called at `x`.
    pub open spec fn accepts(self, x: u32) -> bool {
        call_requires(self.inner(), (x,))
    }

    /// Whether `y` is a value that the mapping may give at `x`.
    pub open spec fn yields(self, x: u32, y: i64) -> bool {
        call_ensures(self.inner(), (x,), y)
    }

    /// Whether the mapping may be called at every step from `x_i` to `x_f`.
    pub open spec fn accepts_range(self, x_i: u32, x_f: u32) -> bool {
        forall|x: u32| x_i <= x <= x_f ==> self.accepts(x)
    }

    /// Whether the mapping gives at most one value at each step: the same step, the same
    /// value.
    pub open spec fn is_pure(self) -> bool {
        forall|x: u32, y1: i64, y2: i64| self.yields(x, y1) && self.yields(x, y2) ==> y1 == y2
    }

    /// Whether `ys` holds, in step order, a value of the mapping at each step from `x_i` to
    /// `x_f`.
    pub open spec fn sampled(self, x_i: u32, x_f: u32, ys: Seq<i64>) -> bool {
        samples_of(self.inner(), x_i, x_f, ys)
    }

    /// Whether `pts` holds, in step order, each step from `x_i` to `x_f` with a value of the
    /// mapping there.
    pub open spec fn sampled_indexed(self, x_i: u32, x_f: u32, pts: Seq<(u32, i64)>) -> bool {
        &&& pts.len() == span(x_i, x_f)
        &&& forall|k: int|
            0 <= k < pts.len() ==> (#[trigger] pts[k]).0 == x_i + k && self.yields(
                pts[k].0,
                pts[k].1,
            )
    }

    /// Whether `p` is the stretched step `x * scales.x` with a value of the mapping there,
    /// stretched by `scales.y`.
    pub open spec fn scaled_point(self, x: u32, scales: Scales, p: (u64, i64)) -> bool {
        &&& p.0 == x * scales.x
        &&& exists|y: i64| #[trigger]
            self.yields(stretched_step(x, scales.x), y) && p.1 == stretched_value(y, scales.y)
    }

    /// Whether `pts` holds, in step order, the scaled point of each step from `x_i` to `x_f`.
    pub open spec fn sampled_scaled(self, x_i: u32, x_f: u32, scales: Scales, pts: Seq<(u64, i64)>) -> bool {
        &&& pts.len() == span(x_i, x_f)
        &&& forall|k: int|
            0 <= k < pts.len() ==> self.scaled_point((x_i + k) as u32, scales, #[trigger] pts[k])
    }

    /// Whether the mapping may be called at every stretched step from `x_i` to `x_f`.
    pub open spec fn accepts_scaled(self, x_i: u32, x_f: u32, scales: Scales) -> bool {
        forall|x: u32| x_i <= x <= x_f ==> self.accepts(#[trigger] stretched_step(x, scales.x))
    }

    /// Wraps a mapping.
    pub fn new(f: F) -> (r: Function<F>)
        ensures
            r.inner() == f,
    {
        Function { f }
    }

    /// The value at step `x`.
    pub fn at(&self, x: u32) -> (y: i64)
        requires
            self.accepts(x),
        ensures
            self.yields(x, y),
    {
        (self.f)(x)
    }

    /// The step `x` together with the value there.
    pub fn pt(&self, x: u32) -> (p: (u32, i64))
        requires
            self.accepts(x),
        ensures
            p.0 == x,
            self.yields(x, p.1),
    {
        let y = self.at(x);
        (x, y)
    }

    /// The values at every step from `x_i` to `x_f`, both included, in step order.
    pub fn rng(&self, x_i: u32, x_f: u32) -> (ys: Vec<i64>)
        requires
            self.accepts_range(x_i, x_f),
        ensures
            self.sampled(x_i, x_f, ys@),
    {
        let mut ys: Vec<i64> = Vec::new();
        let mut x: u64 = x_i as u64;
        while x <= x_f as u64
            invariant
                self.accepts_range(x_i, x_f),
                x_i <= x,
                x_i <= x_f ==> x <= x_f + 1,
                ys.len() == if x_i <= x_f { x - x_i } else { 0 },
                forall|k: int| 0 <= k < ys.len() ==> self.yields((x_i + k) as u32, #[trigger] ys[k]),
            decreases x_f + 1 - x,
        {
            let y = self.at(x as u32);
            ys.push(y);
            x = x + 1;
        }
        ys
    }

    /// Every step from `x_i` to `x_f`, both included, with the value there, in step order.
    pub fn rng_x(&self, x_i: u32, x_f: u32) -> (pts: Vec<(u32, i64)>)
        requires
            self.accepts_range(x_i, x_f),
        ensures
            self.sampled_indexed(x_i, x_f, pts@),
    {
        let mut pts: Vec<(u32, i64)> = Vec::new();
        let mut x: u64 = x_i as u64;
        while x <= x_f as u64
            invariant
                self.accepts_range(x_i, x_f),
                x_i <= x,
                x_i <= x_f ==> x <= x_f + 1,
                pts.len() == if x_i <= x_f { x - x_i } else { 0 },
                forall|k: int|
                    0 <= k < pts.len() ==> (#[trigger] pts[k]).0 == x_i + k && self.yields(
                        pts[k].0,
                        pts[k].1,
                    ),
            decreases x_f + 1 - x,
        {
            let p = self.pt(x as u32);
            pts.push(p);
            x = x + 1;
        }
        pts
    }

    /// For every step `x` from `x_i` to `x_f`, both included, the stretched step
    /// `x * scales.x` with the value there, stretched by `scales.y`, in step order.
    pub fn rng_x_scale(&self, x_i: u32, x_f: u32, scales: &Scales) -> (pts: Vec<(u64, i64)>)
        requires
            self.accepts_scaled(x_i, x_f, *scales),
        ensures
            self.sampled_scaled(x_i, x_f, *scales, pts@),
    {
        let mut pts: Vec<(u64, i64)> = Vec::new();
        let mut x: u64 = x_i as u64;
        while x <= x_f as u64
            invariant
                self.accepts_scaled(x_i, x_f, *scales),
                x_i <= x,
                x_i <= x_f ==> x <= x_f + 1,
                pts.len() == if x_i <= x_f { x - x_i } else { 0 },
                forall|k: int|
                    0 <= k < pts.len() ==> self.scaled_point((x_i + k) as u32, *scales, #[trigger] pts[k]),
            decreases x_f + 1 - x,
        {
            assert(x * scales.x <= 0xffff_ffff * 0xffff_ffff) by (nonlinear_arith)
                requires
                    0 <= x <= 0xffff_ffff,
                    0 <= scales.x <= 0xffff_ffff,
            ;
            let stretched: u64 = x * scales.x as u64;
            let step: u32 = if stretched > 0xffff_ffff {
                0xffff_ffff
            } else {
                stretched as u32
            };
            assert(step == stretched_step(x as u32, scales.x));
            let y = self.at(step);
            assert(-0x4000_0000_0000_0000_0000_0000_0000_0000 <= y * scales.y
                <= 0x4000_0000_0000_0000_0000_0000_0000_0000) by (nonlinear_arith)
                requires
                    -0x8000_0000_0000_0000 <= y <= 0x8000_0000_0000_0000,
                    -0x8000_0000_0000_0000 <= scales.y <= 0x8000_0000_0000_0000,
            ;
            let wide: i128 = y as i128 * scales.y as i128;
            let value: i64 = if wide > i64::MAX as i128 {
                i64::MAX
            } else if wide < i64::MIN as i128 {
                i64::MIN
            } else {
                wide as i64
            };
            proof {
                assert(self.yields(stretched_step(x as u32, scales.x), y) && value
                    == stretched_value(y, scales.y));
                assert(self.scaled_point(x as u32, *scales, (stretched, value)));
            }
            pts.push((stretched, value));
            x = x + 1;
        }
        pts
    }

    /// With both factors one, a scaled sampling is an indexed sampling: its steps are the
    /// steps themselves and its values are values of the mapping there.
    pub proof fn lemma_unit_scale(self, x_i: u32, x_f: u32, pts: Seq<(u64, i64)>)
        ensures
            self.sampled_scaled(x_i, x_f, Scales::unit(), pts) <==> (self.sampled_indexed(
                x_i,
                x_f,
                pts.map_values(|p: (u64, i64)| (p.0 as u32, p.1)),
            ) && forall|k: int| 0 <= k < pts.len() ==> (#[trigger] pts[k]).0 <= u32::MAX),
    {
        let unit = Scales::unit();
        let plain = pts.map_values(|p: (u64, i64)| (p.0 as u32, p.1));
        assert(plain.len() == pts.len());
        if self.sampled_scaled(x_i, x_f, unit, pts) {
            assert forall|k: int| 0 <= k < plain.len() implies (#[trigger] plain[k]).0 == x_i + k
                && self.yields(plain[k].0, plain[k].1) by {
                assert(self.scaled_point((x_i + k) as u32, unit, pts[k]));
                let y = choose|y: i64| #[trigger]
                    self.yields(stretched_step((x_i + k) as u32, 1), y) && pts[k].1
                        == stretched_value(y, 1);
                assert(stretched_step((x_i + k) as u32, 1) == x_i + k);
                assert(stretched_value(y, 1) == y);
            }
            assert forall|k: int| 0 <= k < pts.len() implies (#[trigger] pts[k]).0 <= u32::MAX by {
                assert(self.scaled_point((x_i + k) as u32, unit, pts[k]));
            }
        }
        if self.sampled_indexed(x_i, x_f, plain) && forall|k: int|
            0 <= k < pts.len() ==> (#[trigger] pts[k]).0 <= u32::MAX {
            assert forall|k: int| 0 <= k < pts.len() implies self.scaled_point(
                (x_i + k) as u32,
                unit,
                #[trigger] pts[k],
            ) by {
                assert(plain[k].0 == x_i + k);
                assert(self.yields(plain[k].0, plain[k].1));
                assert(pts[k].0 <= u32::MAX);
                assert(stretched_step((x_i + k) as u32, 1) == x_i + k);
                assert(stretched_value(pts[k].1, 1) == pts[k].1);
                assert(self.yields(stretched_step((x_i + k) as u32, 1), pts[k].1));
            }
        }
    }

    /// Sampling is repeatable: two samplings of a pure mapping over the same steps hold the
    /// same values.
    pub proof fn lemma_sampling_repeatable(self, x_i: u32, x_f: u32, first: Seq<i64>, second: Seq<i64>)
        requires
            self.is_pure(),
            self.sampled(x_i, x_f, first),
            self.sampled(x_i, x_f, second),
        ensures
            first == second,
    {
        assert forall|k: int| 0 <= k < first.len() implies first[k] == second[k] by {
            assert(self.yields((x_i + k) as u32, first[k]));
            assert(self.yields((x_i + k) as u32, second[k]));
        }
        assert(first =~= second);
    }

    /// The values of an indexed sampling are a sampling.
    pub proof fn lemma_indexed_values(self, x_i: u32, x_f: u32, pts: Seq<(u32, i64)>)
        requires
            self.sampled_indexed(x_i, x_f, pts),
        ensures
            self.sampled(x_i, x_f, pts.map_values(|p: (u32, i64)| p.1)),
    {
        let ys = pts.map_values(|p: (u32, i64)| p.1);
        assert forall|k: int| 0 <= k < ys.len() implies self.yields((x_i + k) as u32, #[trigger] ys[k]) by {
            assert(pts[k].0 == x_i + k);
        }
    }
}

} // verus!
