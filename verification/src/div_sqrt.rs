use vstd::prelude::*;

verus! {

/// Magnitude of an integer.
pub open spec fn abs_int(x: int) -> int {
    if x < 0 {
        -x
    } else {
        x
    }
}

/// Division rounded toward zero, as the hardware divider and Rust's `/` compute it.
pub open spec fn trunc_div(a: int, b: int) -> int {
    if (a >= 0) == (b > 0) || a == 0 {
        abs_int(a) / abs_int(b)
    } else {
        -(abs_int(a) / abs_int(b))
    }
}

/// Remainder matching `trunc_div`: it takes the sign of the dividend.
pub open spec fn trunc_rem(a: int, b: int) -> int {
    a - b * trunc_div(a, b)
}

/// Integer square root: the largest `r` with `r * r <= n`.
pub open spec fn is_isqrt(n: int, r: int) -> bool {
    0 <= r && r * r <= n && n < (r + 1) * (r + 1)
}

/// The quotient and remainder that the divider produces for a numerator and a
/// denominator that are already cut to the width the mode reads.
pub open spec fn div_of(num: int, denom: int, zero_quot_pos: int, zero_quot_neg: int, min: int, overflow_quot: int) -> (int, int) {
    if num == min && denom == -1 {
        (overflow_quot, 0)
    } else if denom != 0 {
        (trunc_div(num, denom), trunc_rem(num, denom))
    } else if num < 0 {
        (zero_quot_neg, num)
    } else {
        (zero_quot_pos, num)
    }
}

/// What DIV_RESULT and DIVREM_RESULT hold for the numerator, denominator and mode
/// (bits 0-1 of DIVCNT): 32/32, 64/32 or 64/64 bit signed division.
/// Mode 0 reports a quotient of -1 / +1 extended with all-ones upper bits on a
/// division by zero, and the exact quotient 2^31 for `i32::MIN / -1`.
pub open spec fn div_outcome(numer: i64, denom: i64, mode: int) -> (int, int) {
    if mode == 0 {
        div_of(numer as i32 as int, denom as i32 as int, 4294967295, -4294967295, i32::MIN as int, 0x8000_0000)
    } else if mode == 1 {
        div_of(numer as int, denom as i32 as int, -1, 1, i64::MIN as int, i64::MIN as int)
    } else {
        div_of(numer as int, denom as int, -1, 1, i64::MIN as int, i64::MIN as int)
    }
}

/// What SQRT_RESULT holds: the root of the low word (mode 0) or of the whole
/// 64-bit parameter (mode 1, bit 0 of SQRTCNT).
pub open spec fn sqrt_input(param: u64, cnt: u16) -> int {
    if cnt & 1 == 0 {
        (param as u32) as int
    } else {
        param as int
    }
}

/// The divider and square-root unit's registers as they are saved and restored.
#[derive(Debug)]
pub struct CpContext {
    div_numer: i64,
    div_denom: i64,
    sqrt_param: u64,
    pub div_cnt: u16,
    pub sqrt_cnt: u16,
}

impl CpContext {
    pub closed spec fn numer(&self) -> i64 {
        self.div_numer
    }

    pub closed spec fn denom(&self) -> i64 {
        self.div_denom
    }

    pub closed spec fn param(&self) -> u64 {
        self.sqrt_param
    }

    pub closed spec fn div_control(&self) -> u16 {
        self.div_cnt
    }

    pub closed spec fn sqrt_control(&self) -> u16 {
        self.sqrt_cnt
    }

    /// The division mode that DIVCNT selects.
    pub open spec fn div_mode(&self) -> int {
        (self.div_control() & 3) as int
    }
}

impl Default for CpContext {
    fn default() -> (r: Self)
        ensures
            r.numer() == 0,
            r.denom() == 0,
            r.param() == 0,
            r.div_control() == 0,
            r.sqrt_control() == 0,
    {
        CpContext { div_numer: 0, div_denom: 0, sqrt_param: 0, div_cnt: 0, sqrt_cnt: 0 }
    }
}

/// The ARM9 hardware divider and square-root unit. Results are computed lazily,
/// the first time they are read after an input changed.
pub struct DivSqrt {
    pub context: CpContext,
    sqrt_result: u32,
    sqrt_dirty: bool,
    div_result: i64,
    divrem_result: i64,
    div_dirty: bool,
}

/// Integer square root of a 64-bit value.
fn isqrt_u64(n: u64) -> (r: u64)
    ensures
        is_isqrt(n as int, r as int),
        r < 0x1_0000_0000,
{
    let mut lo: u64 = 0;
    let mut hi: u64 = 0x1_0000_0000;
    assert(hi * hi > n) by (nonlinear_arith)
        requires
            hi == 0x1_0000_0000,
            n <= u64::MAX,
    ;
    while hi - lo > 1
        invariant
            lo < hi <= 0x1_0000_0000,
            lo * lo <= n,
            n < hi * hi,
        decreases hi - lo,
    {
        let mid: u64 = lo + (hi - lo) / 2;
        assert(mid * mid <= u128::MAX) by (nonlinear_arith)
            requires
                mid < 0x1_0000_0000,
        ;
        let sq: u128 = (mid as u128) * (mid as u128);
        if sq <= n as u128 {
            lo = mid;
        } else {
            hi = mid;
        }
    }
    assert(hi == lo + 1);
    lo
}

/// Quotient and remainder rounded toward zero, computed on magnitudes.
fn trunc_div_rem(num: i64, denom: i64) -> (res: (i64, i64))
    requires
        denom != 0,
        !(num == i64::MIN && denom == -1),
    ensures
        res.0 == trunc_div(num as int, denom as int),
        res.1 == trunc_rem(num as int, denom as int),
{
    let n_neg = num < 0;
    let d_neg = denom < 0;
    let an: u64 = if n_neg {
        if num == i64::MIN {
            0x8000_0000_0000_0000
        } else {
            (-num) as u64
        }
    } else {
        num as u64
    };
    let ad: u64 = if d_neg {
        if denom == i64::MIN {
            0x8000_0000_0000_0000
        } else {
            (-denom) as u64
        }
    } else {
        denom as u64
    };
    assert(an == abs_int(num as int));
    assert(ad == abs_int(denom as int));
    let q: u64 = an / ad;
    let r: u64 = an % ad;
    proof {
        assert(q * ad + r == an && ad * q + r == an && r < ad) by (nonlinear_arith)
            requires
                q == an / ad,
                r == an % ad,
                ad > 0,
        ;
        assert(q <= an) by (nonlinear_arith)
            requires
                q == an / ad,
                ad >= 1,
        ;
        if q == 0x8000_0000_0000_0000 {
            assert(ad == 1) by (nonlinear_arith)
                requires
                    q * ad + r == an,
                    an <= 0x8000_0000_0000_0000,
                    q == 0x8000_0000_0000_0000,
                    ad >= 1,
            ;
        }
    }
    let quot: i64 = if n_neg == d_neg || q == 0 {
        assert(q < 0x8000_0000_0000_0000);
        q as i64
    } else {
        if q == 0x8000_0000_0000_0000 {
            i64::MIN
        } else {
            -(q as i64)
        }
    };
    let rem: i64 = if n_neg {
        -(r as i64)
    } else {
        r as i64
    };
    proof {
        assert(quot == trunc_div(num as int, denom as int));
        let t = trunc_div(num as int, denom as int);
        let sn: int = if n_neg { -1 } else { 1 };
        let sd: int = if d_neg { -1 } else { 1 };
        if n_neg {
            assert(num as int == -(an as int));
            assert(num as int == sn * an) by (nonlinear_arith)
                requires
                    num == -(an as int),
                    sn == -1,
            ;
        } else {
            assert(num as int == sn * an);
        }
        if d_neg {
            assert(denom as int == -(ad as int));
            assert(denom as int == sd * ad) by (nonlinear_arith)
                requires
                    denom == -(ad as int),
                    sd == -1,
            ;
        } else {
            assert(sd == 1);
            assert(denom as int == ad as int);
            assert(denom as int == sd * ad);
        }
        if n_neg == d_neg {
            assert(sn * sd == 1);
            assert(t == q);
        } else {
            assert(sn * sd == -1);
            if q == 0 {
                assert(t == 0);
            } else {
                assert(t == -q);
            }
        }
        assert(t == sn * sd * q) by (nonlinear_arith)
            requires
                n_neg == d_neg ==> (t == q && sn * sd == 1),
                n_neg != d_neg ==> (t == -q && sn * sd == -1),
        ;
        assert(num - denom * t == sn * (an - ad * q)) by (nonlinear_arith)
            requires
                num == sn * an,
                denom == sd * ad,
                t == sn * sd * q,
                sd * sd == 1,
        ;
        assert(an - ad * q == r);
        if n_neg {
            assert(rem == -(r as int));
        } else {
            assert(rem == r as int);
        }
        assert(rem == sn * r);
        assert(rem == trunc_rem(num as int, denom as int));
    }
    (quot, rem)
}

impl DivSqrt {
    /// The registers.
    pub closed spec fn ctx(&self) -> CpContext {
        self.context
    }

    /// Quotient that was last computed.
    pub closed spec fn cached_div(&self) -> i64 {
        self.div_result
    }

    /// Remainder that was last computed.
    pub closed spec fn cached_rem(&self) -> i64 {
        self.divrem_result
    }

    /// Root that was last computed.
    pub closed spec fn cached_sqrt(&self) -> u32 {
        self.sqrt_result
    }

    /// Whether the division inputs changed since the last computation.
    pub closed spec fn is_div_dirty(&self) -> bool {
        self.div_dirty
    }

    /// Whether the square-root inputs changed since the last computation.
    pub closed spec fn is_sqrt_dirty(&self) -> bool {
        self.sqrt_dirty
    }

    /// The quotient a result read returns now.
    pub open spec fn div_value(&self) -> int {
        if self.is_div_dirty() {
            div_outcome(self.ctx().numer(), self.ctx().denom(), self.ctx().div_mode()).0
        } else {
            self.cached_div() as int
        }
    }

    /// The remainder a result read returns now.
    pub open spec fn rem_value(&self) -> int {
        if self.is_div_dirty() {
            div_outcome(self.ctx().numer(), self.ctx().denom(), self.ctx().div_mode()).1
        } else {
            self.cached_rem() as int
        }
    }

    /// The cached results, where they are taken as they are, are those of
    /// the current inputs.
    pub open spec fn results_current(&self) -> bool {
        &&& !self.is_div_dirty() ==> (self.cached_div() as int, self.cached_rem() as int) == div_outcome(
            self.ctx().numer(),
            self.ctx().denom(),
            self.ctx().div_mode(),
        )
        &&& !self.is_sqrt_dirty() ==> is_isqrt(
            sqrt_input(self.ctx().param(), self.ctx().sqrt_control()),
            self.cached_sqrt() as int,
        )
    }

    /// The root a result read returns now.
    pub open spec fn sqrt_value(&self) -> int {
        if self.is_sqrt_dirty() {
            choose|r: int| is_isqrt(sqrt_input(self.ctx().param(), self.ctx().sqrt_control()), r)
        } else {
            self.cached_sqrt() as int
        }
    }

    pub fn new() -> (r: Self)
        ensures
            r.ctx().numer() == 0,
            r.ctx().denom() == 0,
            r.ctx().param() == 0,
            r.ctx().div_control() == 0,
            r.ctx().sqrt_control() == 0,
            r.is_div_dirty(),
            r.is_sqrt_dirty(),
            r.results_current(),
    {
        DivSqrt {
            context: CpContext::default(),
            sqrt_result: 0,
            sqrt_dirty: true,
            div_result: 0,
            divrem_result: 0,
            div_dirty: true,
        }
    }

    pub fn get_sqrt_param_l(&self) -> (r: u32)
        ensures
            r == self.ctx().param() as u32,
    {
        self.context.sqrt_param as u32
    }

    pub fn get_sqrt_param_h(&self) -> (r: u32)
        ensures
            r == (self.ctx().param() >> 32) as u32,
    {
        (self.context.sqrt_param >> 32) as u32
    }

    pub fn get_sqrt_result(&mut self) -> (r: u32)
        ensures
            old(self).results_current() ==> final(self).results_current(),
            old(self).results_current() ==> is_isqrt(sqrt_input(old(self).ctx().param(), old(self).ctx().sqrt_control()), r as int),
            is_isqrt(sqrt_input(old(self).ctx().param(), old(self).ctx().sqrt_control()), r as int)
                || !old(self).is_sqrt_dirty(),
            !old(self).is_sqrt_dirty() ==> r == old(self).cached_sqrt(),
            r as int == old(self).sqrt_value(),
            final(self).ctx() == old(self).ctx(),
            !final(self).is_sqrt_dirty(),
            final(self).cached_sqrt() == r,
            final(self).is_div_dirty() == old(self).is_div_dirty(),
            final(self).cached_div() == old(self).cached_div(),
            final(self).cached_rem() == old(self).cached_rem(),
    {
        self.sqrt();
        self.sqrt_result
    }

    fn sqrt(&mut self)
        ensures
            old(self).is_sqrt_dirty() ==> is_isqrt(
                sqrt_input(old(self).ctx().param(), old(self).ctx().sqrt_control()),
                final(self).cached_sqrt() as int,
            ),
            !old(self).is_sqrt_dirty() ==> final(self).cached_sqrt() == old(self).cached_sqrt(),
            final(self).cached_sqrt() as int == old(self).sqrt_value(),
            final(self).ctx() == old(self).ctx(),
            !final(self).is_sqrt_dirty(),
            final(self).is_div_dirty() == old(self).is_div_dirty(),
            final(self).cached_div() == old(self).cached_div(),
            final(self).cached_rem() == old(self).cached_rem(),
    {
        if !self.sqrt_dirty {
            return;
        }
        self.sqrt_dirty = false;
        let input: u64 = if self.context.sqrt_cnt & 1 == 0 {
            (self.context.sqrt_param as u32) as u64
        } else {
            self.context.sqrt_param
        };
        let root = isqrt_u64(input);
        self.sqrt_result = root as u32;
        proof {
            let n = sqrt_input(old(self).ctx().param(), old(self).ctx().sqrt_control());
            lemma_isqrt_unique(n, root as int);
        }
    }

    pub fn set_sqrt_cnt(&mut self, mask: u16, value: u16)
        ensures
            old(self).results_current() ==> final(self).results_current(),
            final(self).ctx().sqrt_control() == (old(self).ctx().sqrt_control() & !(mask & 1)) | (value & (mask & 1)),
            final(self).ctx().param() == old(self).ctx().param(),
            final(self).ctx().numer() == old(self).ctx().numer(),
            final(self).ctx().denom() == old(self).ctx().denom(),
            final(self).ctx().div_control() == old(self).ctx().div_control(),
            final(self).is_sqrt_dirty(),
            final(self).is_div_dirty() == old(self).is_div_dirty(),
            final(self).cached_div() == old(self).cached_div(),
            final(self).cached_rem() == old(self).cached_rem(),
    {
        let mask = mask & 0x1;
        self.context.sqrt_cnt = (self.context.sqrt_cnt & !mask) | (value & mask);
        self.sqrt_dirty = true;
    }

    pub fn set_sqrt_param_l(&mut self, mask: u32, value: u32)
        ensures
            old(self).results_current() ==> final(self).results_current(),
            final(self).ctx().param() == (old(self).ctx().param() & !(mask as u64)) | ((value & mask) as u64),
            final(self).ctx().sqrt_control() == old(self).ctx().sqrt_control(),
            final(self).ctx().numer() == old(self).ctx().numer(),
            final(self).ctx().denom() == old(self).ctx().denom(),
            final(self).ctx().div_control() == old(self).ctx().div_control(),
            final(self).is_sqrt_dirty(),
            final(self).is_div_dirty() == old(self).is_div_dirty(),
            final(self).cached_div() == old(self).cached_div(),
            final(self).cached_rem() == old(self).cached_rem(),
    {
        self.context.sqrt_param = (self.context.sqrt_param & !(mask as u64)) | (value & mask) as u64;
        self.sqrt_dirty = true;
    }

    pub fn set_sqrt_param_h(&mut self, mask: u32, value: u32)
        ensures
            old(self).results_current() ==> final(self).results_current(),
            final(self).ctx().param() == (old(self).ctx().param() & !((mask as u64) << 32u64)) | (((value & mask) as u64) << 32u64),
            final(self).ctx().sqrt_control() == old(self).ctx().sqrt_control(),
            final(self).ctx().numer() == old(self).ctx().numer(),
            final(self).ctx().denom() == old(self).ctx().denom(),
            final(self).ctx().div_control() == old(self).ctx().div_control(),
            final(self).is_sqrt_dirty(),
            final(self).is_div_dirty() == old(self).is_div_dirty(),
            final(self).cached_div() == old(self).cached_div(),
            final(self).cached_rem() == old(self).cached_rem(),
    {
        self.context.sqrt_param = (self.context.sqrt_param & !((mask as u64) << 32u64)) | (((value & mask) as u64) << 32u64);
        self.sqrt_dirty = true;
    }

    pub fn get_div_numer_l(&self) -> (r: u32)
        ensures
            r == self.ctx().numer() as u32,
    {
        self.context.div_numer as u32
    }

    pub fn get_div_numer_h(&self) -> (r: u32)
        ensures
            r == (self.ctx().numer() as u64 >> 32) as u32,
    {
        (self.context.div_numer as u64 >> 32) as u32
    }

    pub fn get_div_denom_l(&self) -> (r: u32)
        ensures
            r == self.ctx().denom() as u32,
    {
        self.context.div_denom as u32
    }

    pub fn get_div_denom_h(&self) -> (r: u32)
        ensures
            r == (self.ctx().denom() as u64 >> 32) as u32,
    {
        (self.context.div_denom as u64 >> 32) as u32
    }

    /// Whether a result read is defined now: the reserved mode 3 is never computed.
    pub open spec fn div_readable(&self) -> bool {
        self.is_div_dirty() ==> self.ctx().div_mode() != 3
    }

    /// DIVCNT after a result read: bit 14 reports a zero denominator once a
    /// division ran.
    pub open spec fn div_cnt_after_read(&self) -> u16 {
        if self.is_div_dirty() {
            if self.ctx().denom() == 0 {
                self.ctx().div_control() | 0x4000
            } else {
                self.ctx().div_control() & !0x4000u16
            }
        } else {
            self.ctx().div_control()
        }
    }

    /// What a result read leaves behind.
    pub open spec fn after_div_read(&self, next: &Self) -> bool {
        &&& next.cached_div() as int == self.div_value()
        &&& next.cached_rem() as int == self.rem_value()
        &&& !next.is_div_dirty()
        &&& next.ctx().div_control() == self.div_cnt_after_read()
        &&& next.ctx().numer() == self.ctx().numer()
        &&& next.ctx().denom() == self.ctx().denom()
        &&& next.ctx().param() == self.ctx().param()
        &&& next.ctx().sqrt_control() == self.ctx().sqrt_control()
        &&& next.is_sqrt_dirty() == self.is_sqrt_dirty()
        &&& next.cached_sqrt() == self.cached_sqrt()
    }

    fn div(&mut self)
        requires
            old(self).div_readable(),
        ensures
            old(self).after_div_read(final(self)),
            final(self).ctx().div_mode() == old(self).ctx().div_mode(),
    {
        proof {
            lemma_div_bits(old(self).context.div_cnt);
        }
        if !self.div_dirty {
            return;
        }
        self.div_dirty = false;
        if self.context.div_denom == 0 {
            self.context.div_cnt = self.context.div_cnt | (1u16 << 14u16);
        } else {
            self.context.div_cnt = self.context.div_cnt & !(1u16 << 14u16);
        }
        proof {
            lemma_div_bits(old(self).context.div_cnt);
        }
        let mode = self.context.div_cnt & 0x3;
        if mode == 0 {
            let num = self.context.div_numer as i32;
            let denom = self.context.div_denom as i32;
            if num == i32::MIN && denom == -1 {
                self.div_result = (num as u64 ^ ((!0u32 as u64) << 32u64)) as i64;
                self.divrem_result = 0;
            } else if denom != 0 {
                let (q, r) = trunc_div_rem(num as i64, denom as i64);
                self.div_result = q;
                self.divrem_result = r;
            } else {
                let sign: i32 = if num < 0 {
                    1
                } else {
                    -1
                };
                self.div_result = (sign as u64 ^ ((!0u32 as u64) << 32u64)) as i64;
                self.divrem_result = num as i64;
            }
        } else if mode == 1 {
            let num = self.context.div_numer;
            let denom = self.context.div_denom as i32;
            if num == i64::MIN && denom == -1 {
                self.div_result = num;
                self.divrem_result = 0;
            } else if denom != 0 {
                let (q, r) = trunc_div_rem(num, denom as i64);
                self.div_result = q;
                self.divrem_result = r;
            } else {
                self.div_result = if num < 0 {
                    1
                } else {
                    -1
                };
                self.divrem_result = num;
            }
        } else {
            let num = self.context.div_numer;
            let denom = self.context.div_denom;
            if num == i64::MIN && denom == -1 {
                self.div_result = num;
                self.divrem_result = 0;
            } else if denom != 0 {
                let (q, r) = trunc_div_rem(num, denom);
                self.div_result = q;
                self.divrem_result = r;
            } else {
                self.div_result = if num < 0 {
                    1
                } else {
                    -1
                };
                self.divrem_result = num;
            }
        }
    }

    pub fn get_div_result_l(&mut self) -> (r: u32)
        requires
            old(self).div_readable(),
        ensures
            old(self).results_current() ==> final(self).results_current(),
            old(self).results_current() ==> final(self).cached_div() as int == div_outcome(old(self).ctx().numer(), old(self).ctx().denom(), old(self).ctx().div_mode()).0,
            old(self).results_current() ==> final(self).cached_rem() as int == div_outcome(old(self).ctx().numer(), old(self).ctx().denom(), old(self).ctx().div_mode()).1,
            old(self).after_div_read(final(self)),
            r == final(self).cached_div() as u32,
    {
        self.div();
        self.div_result as u32
    }

    pub fn get_div_result_h(&mut self) -> (r: u32)
        requires
            old(self).div_readable(),
        ensures
            old(self).results_current() ==> final(self).results_current(),
            old(self).results_current() ==> final(self).cached_div() as int == div_outcome(old(self).ctx().numer(), old(self).ctx().denom(), old(self).ctx().div_mode()).0,
            old(self).results_current() ==> final(self).cached_rem() as int == div_outcome(old(self).ctx().numer(), old(self).ctx().denom(), old(self).ctx().div_mode()).1,
            old(self).after_div_read(final(self)),
            r == (final(self).cached_div() as u64 >> 32) as u32,
    {
        self.div();
        (self.div_result as u64 >> 32) as u32
    }

    pub fn get_divrem_result_l(&mut self) -> (r: u32)
        requires
            old(self).div_readable(),
        ensures
            old(self).results_current() ==> final(self).results_current(),
            old(self).results_current() ==> final(self).cached_div() as int == div_outcome(old(self).ctx().numer(), old(self).ctx().denom(), old(self).ctx().div_mode()).0,
            old(self).results_current() ==> final(self).cached_rem() as int == div_outcome(old(self).ctx().numer(), old(self).ctx().denom(), old(self).ctx().div_mode()).1,
            old(self).after_div_read(final(self)),
            r == final(self).cached_rem() as u32,
    {
        self.div();
        self.divrem_result as u32
    }

    pub fn get_divrem_result_h(&mut self) -> (r: u32)
        requires
            old(self).div_readable(),
        ensures
            old(self).results_current() ==> final(self).results_current(),
            old(self).results_current() ==> final(self).cached_div() as int == div_outcome(old(self).ctx().numer(), old(self).ctx().denom(), old(self).ctx().div_mode()).0,
            old(self).results_current() ==> final(self).cached_rem() as int == div_outcome(old(self).ctx().numer(), old(self).ctx().denom(), old(self).ctx().div_mode()).1,
            old(self).after_div_read(final(self)),
            r == (final(self).cached_rem() as u64 >> 32) as u32,
    {
        self.div();
        (self.divrem_result as u64 >> 32) as u32
    }

    /// The registers other than the ones a setter names stay as they were, and
    /// the division is marked for recomputation.
    pub open spec fn div_input_written(&self, next: &Self) -> bool {
        &&& next.ctx().param() == self.ctx().param()
        &&& next.ctx().sqrt_control() == self.ctx().sqrt_control()
        &&& next.is_div_dirty()
        &&& next.is_sqrt_dirty() == self.is_sqrt_dirty()
        &&& next.cached_sqrt() == self.cached_sqrt()
    }

    pub fn set_div_cnt(&mut self, mask: u16, value: u16)
        ensures
            old(self).results_current() ==> final(self).results_current(),
            old(self).div_input_written(final(self)),
            final(self).ctx().div_control() == (old(self).ctx().div_control() & !(mask & 3)) | (value & (mask & 3)),
            final(self).ctx().numer() == old(self).ctx().numer(),
            final(self).ctx().denom() == old(self).ctx().denom(),
    {
        let mask = mask & 0x3;
        self.context.div_cnt = (self.context.div_cnt & !mask) | (value & mask);
        self.div_dirty = true;
    }

    pub fn set_div_numer_l(&mut self, mask: u32, value: u32)
        ensures
            old(self).results_current() ==> final(self).results_current(),
            old(self).div_input_written(final(self)),
            final(self).ctx().numer() == ((old(self).ctx().numer() as u64 & !(mask as u64)) | ((value & mask) as u64)) as i64,
            final(self).ctx().denom() == old(self).ctx().denom(),
            final(self).ctx().div_control() == old(self).ctx().div_control(),
    {
        self.context.div_numer = ((self.context.div_numer as u64 & !(mask as u64)) | (value & mask) as u64) as i64;
        self.div_dirty = true;
    }

    pub fn set_div_numer_h(&mut self, mask: u32, value: u32)
        ensures
            old(self).results_current() ==> final(self).results_current(),
            old(self).div_input_written(final(self)),
            final(self).ctx().numer() == ((old(self).ctx().numer() as u64 & !((mask as u64) << 32u64)) | (((value & mask) as u64) << 32u64)) as i64,
            final(self).ctx().denom() == old(self).ctx().denom(),
            final(self).ctx().div_control() == old(self).ctx().div_control(),
    {
        self.context.div_numer = ((self.context.div_numer as u64 & !((mask as u64) << 32u64)) | (((value & mask) as u64) << 32u64)) as i64;
        self.div_dirty = true;
    }

    pub fn set_div_denom_l(&mut self, mask: u32, value: u32)
        ensures
            old(self).results_current() ==> final(self).results_current(),
            old(self).div_input_written(final(self)),
            final(self).ctx().denom() == ((old(self).ctx().denom() as u64 & !(mask as u64)) | ((value & mask) as u64)) as i64,
            final(self).ctx().numer() == old(self).ctx().numer(),
            final(self).ctx().div_control() == old(self).ctx().div_control(),
    {
        self.context.div_denom = ((self.context.div_denom as u64 & !(mask as u64)) | (value & mask) as u64) as i64;
        self.div_dirty = true;
    }

    pub fn set_div_denom_h(&mut self, mask: u32, value: u32)
        ensures
            old(self).results_current() ==> final(self).results_current(),
            old(self).div_input_written(final(self)),
            final(self).ctx().denom() == ((old(self).ctx().denom() as u64 & !((mask as u64) << 32u64)) | (((value & mask) as u64) << 32u64)) as i64,
            final(self).ctx().numer() == old(self).ctx().numer(),
            final(self).ctx().div_control() == old(self).ctx().div_control(),
    {
        self.context.div_denom = ((self.context.div_denom as u64 & !((mask as u64) << 32u64)) | (((value & mask) as u64) << 32u64)) as i64;
        self.div_dirty = true;
    }

    pub fn get_context(&self, context: &mut CpContext)
        ensures
            *final(context) == self.ctx(),
    {
        context.div_numer = self.context.div_numer;
        context.div_denom = self.context.div_denom;
        context.sqrt_param = self.context.sqrt_param;
        context.div_cnt = self.context.div_cnt;
        context.sqrt_cnt = self.context.sqrt_cnt;
    }

    pub fn set_context(&mut self, context: &CpContext)
        ensures
            final(self).results_current(),
            final(self).ctx() == *context,
            final(self).is_div_dirty(),
            final(self).is_sqrt_dirty(),
    {
        self.context.div_numer = context.div_numer;
        self.context.div_denom = context.div_denom;
        self.context.sqrt_param = context.sqrt_param;
        self.context.div_cnt = context.div_cnt;
        self.context.sqrt_cnt = context.sqrt_cnt;
        self.div_dirty = true;
        self.sqrt_dirty = true;
    }
}

/// The divider's remainder is smaller than the divisor in magnitude and,
/// when not zero, has the sign of the dividend; quotient and remainder
/// give back the dividend.
pub proof fn law_div_remainder(n: int, d: int)
    requires
        d != 0,
    ensures
        n == d * trunc_div(n, d) + trunc_rem(n, d),
        abs_int(trunc_rem(n, d)) < abs_int(d),
        trunc_rem(n, d) == 0 || (trunc_rem(n, d) < 0) == (n < 0),
{
    let an = abs_int(n);
    let ad = abs_int(d);
    let q = an / ad;
    let r = an % ad;
    vstd::arithmetic::div_mod::lemma_fundamental_div_mod(an, ad);
    vstd::arithmetic::div_mod::lemma_mod_bound(an, ad);
    assert(an == ad * q + r);
    assert(0 <= r < ad);
    if (n >= 0) == (d > 0) || n == 0 {
        assert(trunc_div(n, d) == q);
        if n >= 0 && d > 0 {
            assert(trunc_rem(n, d) == r);
        } else if n == 0 {
            assert(q == 0) by (nonlinear_arith)
                requires
                    an == 0,
                    an == ad * q + r,
                    0 <= r < ad,
            ;
            assert(d * q == 0) by (nonlinear_arith)
                requires
                    q == 0,
            ;
        } else {
            assert(n < 0 && d < 0);
            assert(d * q == -(ad * q)) by (nonlinear_arith)
                requires
                    d == -ad,
            ;
            assert(trunc_rem(n, d) == -r);
        }
    } else {
        assert(trunc_div(n, d) == -q);
        if n > 0 {
            assert(d < 0);
            assert(d * (-q) == ad * q) by (nonlinear_arith)
                requires
                    d == -ad,
            ;
            assert(trunc_rem(n, d) == r);
        } else {
            assert(n < 0 && d > 0);
            assert(d * (-q) == -(ad * q)) by (nonlinear_arith)
                requires
                    d == ad,
            ;
            assert(trunc_rem(n, d) == -r);
        }
    }
}

/// A divider whose cached results are current, as every public operation
/// keeps it from `new` on, reads the results of its current inputs: the
/// quotient and remainder of the mode's division and the integer square root.
pub proof fn law_reads_follow_inputs(d: DivSqrt)
    requires
        d.results_current(),
    ensures
        (d.div_value(), d.rem_value()) == div_outcome(d.ctx().numer(), d.ctx().denom(), d.ctx().div_mode()),
        !d.is_sqrt_dirty() ==> is_isqrt(sqrt_input(d.ctx().param(), d.ctx().sqrt_control()), d.sqrt_value()),
{
}

/// Restoring a saved context gives back the results of the saved state: a
/// state whose cached results are current, saved with `get_context` and
/// restored into any state with `set_context`, reads the same quotient,
/// remainder and root.
pub proof fn law_context_round_trip(a: DivSqrt, saved: CpContext, c: DivSqrt)
    requires
        saved == a.ctx(),
        c.ctx() == saved,
        c.is_div_dirty(),
        c.is_sqrt_dirty(),
        a.results_current(),
    ensures
        c.div_value() == a.div_value(),
        c.rem_value() == a.rem_value(),
        c.sqrt_value() == a.sqrt_value(),
{
    if !a.is_sqrt_dirty() {
        let n = sqrt_input(a.ctx().param(), a.ctx().sqrt_control());
        lemma_isqrt_unique(n, a.cached_sqrt() as int);
        assert(is_isqrt(n, a.cached_sqrt() as int));
    }
}

/// The root is unique.
proof fn lemma_isqrt_unique(n: int, r: int)
    requires
        is_isqrt(n, r),
    ensures
        forall|s: int| is_isqrt(n, s) ==> s == r,
{
    assert forall|s: int| is_isqrt(n, s) implies s == r by {
        if s < r {
            assert((s + 1) * (s + 1) <= r * r) by (nonlinear_arith)
                requires
                    0 <= s < r,
            ;
        } else if s > r {
            assert((r + 1) * (r + 1) <= s * s) by (nonlinear_arith)
                requires
                    0 <= r < s,
            ;
        }
    }
}

/// The bit facts of a division: the busy bit, the mode bits, and the
/// results of a division by zero and of the one overflowing division.
proof fn lemma_div_bits(c: u16)
    by (bit_vector)
    ensures
        1u16 << 14u16 == 0x4000,
        (c | 0x4000u16) & 3 == c & 3,
        (c & !0x4000u16) & 3 == c & 3,
        (i32::MIN as u64 ^ ((!0u32 as u64) << 32u64)) as i64 == 0x8000_0000i64,
        (1i32 as u64 ^ ((!0u32 as u64) << 32u64)) as i64 == -4294967295i64,
        (-1i32 as u64 ^ ((!0u32 as u64) << 32u64)) as i64 == 4294967295i64,
{
}

} // verus!
