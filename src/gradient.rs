//! Colour ramps: evenly spaced colour stops, sampled at a rational position
//! `num / den` in `[0, 1]` by linear interpolation between the two stops
//! around it.
use vstd::prelude::*;

verus! {

/// Most stops a ramp may hold.
pub const MAX_STOPS: usize = 16;

/// An 8-bit colour with alpha.
#[derive(Clone, Copy, Debug, PartialEq, Eq, Structural)]
pub struct Rgba {
    pub r: u8,
    pub g: u8,
    pub b: u8,
    pub a: u8,
}

/// The channel `t / span` of the way from `a` to `b`, rounded down.
pub open spec fn blend(a: u8, b: u8, t: nat, span: nat) -> int {
    ((a as int) * (span - t) + (b as int) * t) / (span as int)
}

/// `blend` on each channel.
pub open spec fn blend_rgba(a: Rgba, b: Rgba, t: nat, span: nat) -> Rgba {
    Rgba {
        r: blend(a.r, b.r, t, span) as u8,
        g: blend(a.g, b.g, t, span) as u8,
        b: blend(a.b, b.b, t, span) as u8,
        a: blend(a.a, b.a, t, span) as u8,
    }
}

/// Index of the segment, out of `n`, that holds position `num / den`; the
/// end position `1` belongs to the last one.
pub open spec fn segment_of(num: nat, den: nat, n: nat) -> nat {
    let q = (num * n) / den;
    if q >= n {
        (n - 1) as nat
    } else {
        q
    }
}

/// Colour of the ramp through `stops` at position `num / den`.
pub open spec fn ramp_at(stops: Seq<Rgba>, num: nat, den: nat) -> Rgba {
    let n = (stops.len() - 1) as nat;
    let j = segment_of(num, den, n);
    blend_rgba(stops[j as int], stops[j + 1int], (num * n - j * den) as nat, den)
}

pub open spec fn between(v: int, a: u8, b: u8) -> bool {
    (a <= v <= b) || (b <= v <= a)
}

proof fn lemma_blend_between(a: u8, b: u8, t: nat, span: nat)
    requires
        0 < span,
        t <= span,
    ensures
        between(blend(a, b, t, span), a, b),
        t == 0 ==> blend(a, b, t, span) == a,
        t == span ==> blend(a, b, t, span) == b,
{
    let v = (a as int) * (span - t) + (b as int) * t;
    let lo: int = if a <= b { a as int } else { b as int };
    let hi: int = if a <= b { b as int } else { a as int };
    assert(lo * span <= v <= hi * span) by (nonlinear_arith)
        requires
            v == (a as int) * (span - t) + (b as int) * t,
            lo <= a <= hi,
            lo <= b <= hi,
            0 <= t <= span,
    ;
    vstd::arithmetic::div_mod::lemma_div_is_ordered(lo * span, v, span as int);
    vstd::arithmetic::div_mod::lemma_div_is_ordered(v, hi * span, span as int);
    vstd::arithmetic::div_mod::lemma_div_by_multiple(lo, span as int);
    vstd::arithmetic::div_mod::lemma_div_by_multiple(hi, span as int);
    if t == 0 {
        assert(v == (a as int) * span) by (nonlinear_arith)
            requires
                v == (a as int) * (span - t) + (b as int) * t,
                t == 0,
        ;
        vstd::arithmetic::div_mod::lemma_div_by_multiple(a as int, span as int);
    }
    if t == span {
        assert(v == (b as int) * span) by (nonlinear_arith)
            requires
                v == (a as int) * (span - t) + (b as int) * t,
                t == span,
        ;
        vstd::arithmetic::div_mod::lemma_div_by_multiple(b as int, span as int);
    }
}

fn blend_channel(a: u8, b: u8, t: u64, span: u64) -> (r: u8)
    requires
        0 < span <= u32::MAX,
        t <= span,
    ensures
        r as int == blend(a, b, t as nat, span as nat),
{
    proof {
        lemma_blend_between(a, b, t as nat, span as nat);
        assert((a as int) * (span - t) + (b as int) * t <= 255 * span) by (nonlinear_arith)
            requires
                a <= 255,
                b <= 255,
                0 <= t <= span,
        ;
        assert(0 <= (a as int) * (span - t)) by (nonlinear_arith)
            requires
                0 <= t <= span,
        ;
        assert(0 <= (b as int) * t) by (nonlinear_arith)
            requires
                0 <= t,
        ;
        assert(255 * span <= 255 * u32::MAX);
    }
    let v = (a as u64) * (span - t) + (b as u64) * t;
    (v / span) as u8
}

proof fn lemma_segment(num: nat, den: nat, n: nat)
    requires
        0 < den,
        num <= den,
        1 <= n,
    ensures
        segment_of(num, den, n) < n,
        segment_of(num, den, n) * den <= num * n,
        num * n - segment_of(num, den, n) * den <= den,
{
    let x = num * n;
    let q = x / den;
    let j = segment_of(num, den, n);
    assert(x <= den * n) by (nonlinear_arith)
        requires
            x == num * n,
            num <= den,
    ;
    vstd::arithmetic::div_mod::lemma_fundamental_div_mod(x as int, den as int);
    vstd::arithmetic::div_mod::lemma_mod_bound(x as int, den as int);
    if q >= n {
        assert(q * den >= n * den) by (nonlinear_arith)
            requires
                q >= n,
                den > 0,
        ;
        assert(x == n * den) by (nonlinear_arith)
            requires
                x <= den * n,
                q * den >= n * den,
                x == den * q + x % den,
                x % den >= 0,
        ;
        assert(j * den + den == n * den) by (nonlinear_arith)
            requires
                j == n - 1,
        ;
    } else {
        assert(j == q);
    }
}

/// Names a stop's colour with full opacity.
pub open spec fn opaque(r: u8, g: u8, b: u8) -> Rgba {
    Rgba { r, g, b, a: 255 }
}

fn rgb(r: u8, g: u8, b: u8) -> (c: Rgba)
    ensures
        c == opaque(r, g, b),
{
    Rgba { r, g, b, a: 255 }
}

/// A colour ramp through evenly spaced stops.
pub struct Gradient {
    name: &'static str,
    stops: Vec<Rgba>,
}

impl View for Gradient {
    type V = Seq<Rgba>;

    closed spec fn view(&self) -> Seq<Rgba> {
        self.stops@
    }
}

impl Gradient {
    /// A ramp needs two stops at least, and holds at most `MAX_STOPS`.
    pub open spec fn wf(&self) -> bool {
        2 <= self@.len() <= MAX_STOPS
    }

    pub closed spec fn spec_name(&self) -> Seq<char> {
        self.name@
    }

    /// A ramp through `stops`, or `None` where their number is out of
    /// `2..=MAX_STOPS`.
    pub fn new(name: &'static str, stops: Vec<Rgba>) -> (r: Option<Gradient>)
        ensures
            r is Some <==> 2 <= stops@.len() <= MAX_STOPS,
            r matches Some(g) ==> g.wf() && g@ == stops@ && g.spec_name() == name@,
    {
        if stops.len() < 2 || stops.len() > MAX_STOPS {
            None
        } else {
            Some(Gradient { name, stops })
        }
    }

    pub fn name(&self) -> (r: &'static str)
        ensures
            r@ == self.spec_name(),
    {
        self.name
    }

    /// The colour at position `num / den`.
    pub fn at(&self, num: u32, den: u32) -> (c: Rgba)
        requires
            self.wf(),
            0 < den,
            num <= den,
        ensures
            c == ramp_at(self@, num as nat, den as nat),
    {
        let n: u64 = (self.stops.len() - 1) as u64;
        let d: u64 = den as u64;
        proof {
            lemma_segment(num as nat, den as nat, n as nat);
            assert((num as nat) * (n as nat) <= u32::MAX * 16) by (nonlinear_arith)
                requires
                    num <= u32::MAX,
                    n <= 16,
            ;
        }
        let x: u64 = (num as u64) * n;
        let q: u64 = x / d;
        let j: u64 = if q >= n {
            n - 1
        } else {
            q
        };
        let t: u64 = x - j * d;
        let a = self.stops[j as usize];
        let b = self.stops[j as usize + 1];
        Rgba {
            r: blend_channel(a.r, b.r, t, d),
            g: blend_channel(a.g, b.g, t, d),
            b: blend_channel(a.b, b.b, t, d),
            a: blend_channel(a.a, b.a, t, d),
        }
    }
}

proof fn lemma_blend_monotone(a: u8, b: u8, t1: nat, t2: nat, span: nat)
    requires
        0 < span,
        t1 <= t2 <= span,
    ensures
        a <= b ==> blend(a, b, t1, span) <= blend(a, b, t2, span),
        b <= a ==> blend(a, b, t2, span) <= blend(a, b, t1, span),
{
    let v1 = (a as int) * (span - t1) + (b as int) * t1;
    let v2 = (a as int) * (span - t2) + (b as int) * t2;
    assert(v2 - v1 == ((b as int) - (a as int)) * (t2 - t1)) by (nonlinear_arith)
        requires
            v1 == (a as int) * (span - t1) + (b as int) * t1,
            v2 == (a as int) * (span - t2) + (b as int) * t2,
    ;
    if a <= b {
        assert(((b as int) - (a as int)) * (t2 - t1) >= 0) by (nonlinear_arith)
            requires
                a <= b,
                t1 <= t2,
        ;
        vstd::arithmetic::div_mod::lemma_div_is_ordered(v1, v2, span as int);
    }
    if b <= a {
        assert(((b as int) - (a as int)) * (t2 - t1) <= 0) by (nonlinear_arith)
            requires
                b <= a,
                t1 <= t2,
        ;
        vstd::arithmetic::div_mod::lemma_div_is_ordered(v2, v1, span as int);
    }
}

/// Within one segment a ramp changes monotonically: moving the position
/// forward moves each channel toward that channel of the segment's end
/// stop, never back.
pub proof fn lemma_ramp_monotone(stops: Seq<Rgba>, num1: nat, num2: nat, den: nat)
    requires
        2 <= stops.len(),
        0 < den,
        num1 <= num2 <= den,
        segment_of(num1, den, (stops.len() - 1) as nat) == segment_of(
            num2,
            den,
            (stops.len() - 1) as nat,
        ),
    ensures
        ({
            let j = segment_of(num1, den, (stops.len() - 1) as nat) as int;
            let (a, b) = (stops[j], stops[j + 1]);
            let (c1, c2) = (ramp_at(stops, num1, den), ramp_at(stops, num2, den));
            &&& a.r <= b.r ==> c1.r <= c2.r
            &&& b.r <= a.r ==> c2.r <= c1.r
            &&& a.g <= b.g ==> c1.g <= c2.g
            &&& b.g <= a.g ==> c2.g <= c1.g
            &&& a.b <= b.b ==> c1.b <= c2.b
            &&& b.b <= a.b ==> c2.b <= c1.b
            &&& a.a <= b.a ==> c1.a <= c2.a
            &&& b.a <= a.a ==> c2.a <= c1.a
        }),
{
    let n = (stops.len() - 1) as nat;
    lemma_segment(num1, den, n);
    lemma_segment(num2, den, n);
    let j = segment_of(num1, den, n) as int;
    let t1 = (num1 * n - j * den) as nat;
    let t2 = (num2 * n - j * den) as nat;
    assert(num1 * n <= num2 * n) by (nonlinear_arith)
        requires
            num1 <= num2,
    ;
    let (a, b) = (stops[j], stops[j + 1]);
    lemma_blend_monotone(a.r, b.r, t1, t2, den);
    lemma_blend_monotone(a.g, b.g, t1, t2, den);
    lemma_blend_monotone(a.b, b.b, t1, t2, den);
    lemma_blend_monotone(a.a, b.a, t1, t2, den);
    lemma_blend_between(a.r, b.r, t1, den);
    lemma_blend_between(a.g, b.g, t1, den);
    lemma_blend_between(a.b, b.b, t1, den);
    lemma_blend_between(a.a, b.a, t1, den);
    lemma_blend_between(a.r, b.r, t2, den);
    lemma_blend_between(a.g, b.g, t2, den);
    lemma_blend_between(a.b, b.b, t2, den);
    lemma_blend_between(a.a, b.a, t2, den);
}

/// Number of ramps in the built-in catalog.
pub const CATALOG_LEN: usize = 4;

/// Stops of the built-in ramp at `index`: fire, ocean, grayscale, rainbow.
pub open spec fn catalog_stops(index: int) -> Seq<Rgba> {
    if index == 0 {
        seq![opaque(0, 0, 0), opaque(128, 0, 0), opaque(255, 128, 0), opaque(255, 255, 128), opaque(255, 255, 255)]
    } else if index == 1 {
        seq![opaque(0, 0, 32), opaque(0, 64, 160), opaque(0, 200, 255), opaque(224, 255, 255)]
    } else if index == 2 {
        seq![opaque(0, 0, 0), opaque(255, 255, 255)]
    } else {
        seq![opaque(255, 0, 0), opaque(255, 160, 0), opaque(255, 255, 0), opaque(0, 200, 0), opaque(0, 64, 255), opaque(160, 0, 255)]
    }
}

/// The built-in ramps, in the order the next-gradient command walks them.
pub fn catalog() -> (r: Vec<Gradient>)
    ensures
        r@.len() == CATALOG_LEN,
        forall|i: int| 0 <= i < CATALOG_LEN ==> #[trigger] r@[i].wf() && r@[i]@ == catalog_stops(i),
{
    let fire = vec![rgb(0, 0, 0), rgb(128, 0, 0), rgb(255, 128, 0), rgb(255, 255, 128), rgb(255, 255, 255)];
    let ocean = vec![rgb(0, 0, 32), rgb(0, 64, 160), rgb(0, 200, 255), rgb(224, 255, 255)];
    let gray = vec![rgb(0, 0, 0), rgb(255, 255, 255)];
    let rainbow = vec![rgb(255, 0, 0), rgb(255, 160, 0), rgb(255, 255, 0), rgb(0, 200, 0), rgb(0, 64, 255), rgb(160, 0, 255)];
    proof {
        assert(fire@ =~= catalog_stops(0));
        assert(ocean@ =~= catalog_stops(1));
        assert(gray@ =~= catalog_stops(2));
        assert(rainbow@ =~= catalog_stops(3));
    }
    let r = vec![
        Gradient { name: "fire", stops: fire },
        Gradient { name: "ocean", stops: ocean },
        Gradient { name: "grayscale", stops: gray },
        Gradient { name: "rainbow", stops: rainbow },
    ];
    proof {
        assert forall|i: int| 0 <= i < CATALOG_LEN implies #[trigger] r@[i].wf() && r@[i]@
            == catalog_stops(i) by {
            if i == 0 {
            } else if i == 1 {
            } else if i == 2 {
            } else {
            }
        }
    }
    r
}

/// A ramp is defined at every position of `[0, 1]`: each channel of the
/// colour there lies between that channel of the two stops around the
/// position, position `0` gives the first stop and position `1` the last.
pub proof fn lemma_ramp_in_range(stops: Seq<Rgba>, num: nat, den: nat)
    requires
        2 <= stops.len(),
        0 < den,
        num <= den,
    ensures
        ({
            let j = segment_of(num, den, (stops.len() - 1) as nat) as int;
            let c = ramp_at(stops, num, den);
            &&& 0 <= j < stops.len() - 1
            &&& between(c.r as int, stops[j].r, stops[j + 1].r)
            &&& between(c.g as int, stops[j].g, stops[j + 1].g)
            &&& between(c.b as int, stops[j].b, stops[j + 1].b)
            &&& between(c.a as int, stops[j].a, stops[j + 1].a)
        }),
        ramp_at(stops, 0, den) == stops[0],
        ramp_at(stops, den, den) == stops.last(),
{
    let n = (stops.len() - 1) as nat;
    lemma_segment(num, den, n);
    let j = segment_of(num, den, n) as int;
    let t = (num * n - j * den) as nat;
    lemma_blend_between(stops[j].r, stops[j + 1].r, t, den);
    lemma_blend_between(stops[j].g, stops[j + 1].g, t, den);
    lemma_blend_between(stops[j].b, stops[j + 1].b, t, den);
    lemma_blend_between(stops[j].a, stops[j + 1].a, t, den);
    // position 0: first segment, no way along it
    lemma_segment(0, den, n);
    assert(0 * n == 0);
    assert(0nat / den == 0);
    let s0 = stops[0];
    let s1 = stops[1];
    lemma_blend_between(s0.r, s1.r, 0, den);
    lemma_blend_between(s0.g, s1.g, 0, den);
    lemma_blend_between(s0.b, s1.b, 0, den);
    lemma_blend_between(s0.a, s1.a, 0, den);
    // position 1: last segment, all the way along it
    lemma_segment(den, den, n);
    assert((den * n) / den == n) by {
        vstd::arithmetic::div_mod::lemma_div_multiples_vanish(n as int, den as int);
        vstd::arithmetic::mul::lemma_mul_is_commutative(n as int, den as int);
    }
    let last = (n - 1) as int;
    assert(den * n - last * den == den) by (nonlinear_arith)
        requires
            last == n - 1,
    ;
    let a = stops[last];
    let b = stops[last + 1];
    lemma_blend_between(a.r, b.r, den, den);
    lemma_blend_between(a.g, b.g, den, den);
    lemma_blend_between(a.b, b.b, den, den);
    lemma_blend_between(a.a, b.a, den, den);
}

} // verus!
