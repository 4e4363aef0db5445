//! The character ramp: an ordered, non-empty run of glyphs from least to
//! most visually dense, and the map from a brightness to a glyph.
use vstd::prelude::*;
use vstd::string::StrSliceExecFns;

verus! {

/// Index into a ramp of `len` glyphs for brightness `num / den`:
/// `floor(len * num / den)`, clamped to the last glyph.
pub open spec fn ramp_index_spec(num: int, den: int, len: int) -> int {
    let i = len * num / den;
    if i >= len {
        len - 1
    } else {
        i
    }
}

/// Index of the glyph for the brightness `num / den` in a ramp of `len`
/// glyphs. A brightness of exactly 1 (or more) maps to the last glyph.
pub fn ramp_index(num: u64, den: u64, len: usize) -> (r: usize)
    requires
        den > 0,
        len > 0,
    ensures
        r as int == ramp_index_spec(num as int, den as int, len as int),
        r < len,
        num == 0 ==> r == 0,
        num >= den ==> r == len - 1,
{
    assert((len as int) * (num as int) <= u128::MAX) by (nonlinear_arith)
        requires
            len <= u64::MAX,
            num <= u64::MAX,
    ;
    let prod: u128 = (len as u128) * (num as u128);
    let i: u128 = prod / (den as u128);
    proof {
        assert(0 <= (len as int) * (num as int)) by (nonlinear_arith);
        assert(0 <= prod / (den as u128));
        if num >= den {
            assert((len as int) * (num as int) >= (len as int) * (den as int)) by (nonlinear_arith)
                requires
                    num >= den,
            ;
            lemma_floor_div_at_least(prod as int, den as int, len as int);
        }
    }
    if i >= len as u128 {
        len - 1
    } else {
        i as usize
    }
}

/// `floor(a / d) >= k` exactly when `a >= k * d`.
proof fn lemma_floor_div_at_least(a: int, d: int, k: int)
    requires
        d > 0,
        a >= 0,
        k >= 0,
    ensures
        a / d >= k <==> a >= k * d,
{
    assert(a == d * (a / d) + a % d) by (nonlinear_arith)
        requires
            d > 0,
    ;
    assert(0 <= a % d < d);
    if a / d >= k {
        assert(d * (a / d) >= d * k) by (nonlinear_arith)
            requires
                a / d >= k,
                d > 0,
        ;
    }
    if a >= k * d {
        assert(a / d >= k) by (nonlinear_arith)
            requires
                a >= k * d,
                d > 0,
                a == d * (a / d) + a % d,
                0 <= a % d < d,
        ;
    }
}

/// The glyphs of the standard ramp, from blank to densest.
pub const STANDARD_GLYPHS: &'static str =
    " `.-':_,^=;><+!rc*/z?sLTv)J7(|Fi{C}fI31tlu[neoZ5Yxjya]2ESwqkP6h9d4VpOGbUAKXHm8RD#$Bg0MNWQ%&@";

/// An ordered, non-empty sequence of glyphs, least dense first.
pub struct Ramp {
    glyphs: Vec<char>,
}

impl View for Ramp {
    type V = Seq<char>;

    closed spec fn view(&self) -> Seq<char> {
        self.glyphs@
    }
}

impl Ramp {
    /// A ramp always holds at least one glyph.
    pub open spec fn wf(&self) -> bool {
        self@.len() > 0
    }

    /// The ramp made of `glyphs`, or `None` when there are none.
    pub fn new(glyphs: Vec<char>) -> (r: Option<Ramp>)
        ensures
            glyphs@.len() == 0 <==> r is None,
            r matches Some(ramp) ==> ramp@ == glyphs@ && ramp.wf(),
    {
        if glyphs.len() == 0 {
            None
        } else {
            Some(Ramp { glyphs })
        }
    }

    /// The ramp made of the characters of `text`, in order, or `None` when
    /// `text` is empty.
    pub fn from_text(text: &str) -> (r: Option<Ramp>)
        ensures
            text@.len() == 0 <==> r is None,
            r matches Some(ramp) ==> ramp@ == text@ && ramp.wf(),
    {
        let n = text.unicode_len();
        let mut glyphs: Vec<char> = Vec::new();
        let mut i: usize = 0;
        while i < n
            invariant
                n == text@.len(),
                i <= n,
                glyphs@ == text@.take(i as int),
            decreases n - i,
        {
            glyphs.push(text.get_char(i));
            i = i + 1;
            assert(glyphs@ =~= text@.take(i as int));
        }
        assert(glyphs@ =~= text@);
        Ramp::new(glyphs)
    }

    /// The standard ramp of [`STANDARD_GLYPHS`].
    pub fn standard() -> (r: Ramp)
        ensures
            r@ == STANDARD_GLYPHS@,
            r@.len() == 92,
            r.wf(),
    {
        proof {
            reveal_strlit(" `.-':_,^=;><+!rc*/z?sLTv)J7(|Fi{C}fI31tlu[neoZ5Yxjya]2ESwqkP6h9d4VpOGbUAKXHm8RD#$Bg0MNWQ%&@");
        }
        let r = Ramp::from_text(STANDARD_GLYPHS);
        match r {
            Some(ramp) => ramp,
            None => Ramp { glyphs: vec![' '] },
        }
    }

    /// Number of glyphs.
    pub fn len(&self) -> (r: usize)
        ensures
            r == self@.len(),
    {
        self.glyphs.len()
    }

    /// The glyph at position `i`.
    pub fn glyph(&self, i: usize) -> (c: char)
        requires
            i < self@.len(),
        ensures
            c == self@[i as int],
    {
        self.glyphs[i]
    }

    /// The glyph for brightness `num / den` (see [`ramp_index`]).
    pub fn glyph_for(&self, num: u64, den: u64) -> (c: char)
        requires
            self.wf(),
            den > 0,
        ensures
            c == self@[ramp_index_spec(num as int, den as int, self@.len() as int)],
    {
        self.glyphs[ramp_index(num, den, self.glyphs.len())]
    }
}

} // verus!
