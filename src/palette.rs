use vstd::prelude::*;

verus! {

/// Weighted luminance scaled by 1000: `1000 * (0.299 R + 0.587 G + 0.114 B)`.
pub open spec fn weighted_luma(r: u8, g: u8, b: u8) -> int {
    299 * r + 587 * g + 114 * b
}

/// The palette index for a pixel: `round(L / 255 * (n - 1))`, halves rounded up,
/// written over the integers as `floor((2 W (n - 1) + 255000) / 510000)` with
/// `W = 1000 L`.
pub open spec fn glyph_index(r: u8, g: u8, b: u8, n: nat) -> int {
    index_of_weight(weighted_luma(r, g, b), n)
}

/// The same index for a luminance given directly as `W = 1000 L`, `0 <= W <= 255000`.
pub open spec fn index_of_weight(w: int, n: nat) -> int {
    (2 * w * (n - 1) + 255000) / 510000
}

/// The standard glyphs, densest first.
pub open spec fn standard_glyphs() -> Seq<char> {
    seq![
        '$', '@', 'B', '%', '8', '&', 'W', 'M', '#', '*', 'o', 'a', 'h', 'k', 'b', 'd', 'p',
        'q', 'w', 'm', 'Z', '0', 'O', 'Q', 'L', 'C', 'J', 'U', 'Y', 'X', 'z', 'c', 'v', 'u',
        'n', 'x', 'r', 'j', 'f', 't', '/', '|', '(', ')', '1', '{', '}', '[', ']', '?', '-',
        '_', '+', '~', '<', '>', 'i', '!', 'l', 'I', ';', ':', ',', '"', '^', '`', '\'', '.',
        ' ',
    ]
}

/// An ordered table of at least two glyphs; the first stands for luminance 0,
/// the last for luminance 255.
#[derive(Debug)]
pub struct Palette {
    glyphs: Vec<char>,
}

impl View for Palette {
    type V = Seq<char>;

    closed spec fn view(&self) -> Seq<char> {
        self.glyphs@
    }
}

impl Palette {
    pub open spec fn wf(&self) -> bool {
        self@.len() >= 2
    }

    /// A palette over the given glyphs, or `None` when fewer than two are given.
    pub fn new(glyphs: Vec<char>) -> (r: Option<Palette>)
        ensures
            glyphs@.len() >= 2 <==> r is Some,
            r matches Some(p) ==> p@ == glyphs@ && p.wf(),
    {
        if glyphs.len() >= 2 {
            let p = Palette { glyphs };
            assert(p@ == p.glyphs@);
            Some(p)
        } else {
            None
        }
    }

    /// The standard palette of sixty-nine glyphs, densest first.
    pub fn standard() -> (r: Palette)
        ensures
            r.wf(),
            r@ == standard_glyphs(),
            r@.len() == 69,
    {
        let glyphs: Vec<char> = vec![
            '$', '@', 'B', '%', '8', '&', 'W', 'M', '#', '*', 'o', 'a', 'h', 'k', 'b', 'd', 'p',
            'q', 'w', 'm', 'Z', '0', 'O', 'Q', 'L', 'C', 'J', 'U', 'Y', 'X', 'z', 'c', 'v', 'u',
            'n', 'x', 'r', 'j', 'f', 't', '/', '|', '(', ')', '1', '{', '}', '[', ']', '?', '-',
            '_', '+', '~', '<', '>', 'i', '!', 'l', 'I', ';', ':', ',', '"', '^', '`', '\'', '.',
            ' ',
        ];
        let p = Palette { glyphs };
        assert(p@ =~= standard_glyphs());
        p
    }

    pub fn len(&self) -> (r: usize)
        ensures
            r == self@.len(),
    {
        self.glyphs.len()
    }

    /// The glyph at position `i`.
    pub fn glyph(&self, i: usize) -> (r: char)
        requires
            i < self@.len(),
        ensures
            r == self@[i as int],
    {
        self.glyphs[i]
    }

    /// The palette index of a pixel (see `glyph_index`).
    pub fn index_for(&self, r: u8, g: u8, b: u8) -> (idx: usize)
        requires
            self.wf(),
        ensures
            idx == glyph_index(r, g, b, self@.len()),
            idx < self@.len(),
    {
        let n = self.glyphs.len();
        let w: u128 = 299 * (r as u128) + 587 * (g as u128) + 114 * (b as u128);
        assert(w == weighted_luma(r, g, b));
        let top: u128 = (n - 1) as u128;
        proof {
            lemma_index_in_range(weighted_luma(r, g, b), n as nat);
            assert(w * top <= 255000 * 0xffff_ffff_ffff_ffff) by (nonlinear_arith)
                requires
                    w <= 255000,
                    top <= 0xffff_ffff_ffff_ffff,
            ;
        }
        let idx = (2 * w * top + 255000) / 510000;
        idx as usize
    }

    /// The glyph that stands for a pixel.
    pub fn glyph_for(&self, r: u8, g: u8, b: u8) -> (c: char)
        requires
            self.wf(),
        ensures
            c == self@[glyph_index(r, g, b, self@.len())],
    {
        let i = self.index_for(r, g, b);
        self.glyphs[i]
    }
}

proof fn lemma_index_in_range(w: int, n: nat)
    requires
        0 <= w <= 255000,
        n >= 1,
    ensures
        0 <= index_of_weight(w, n) < n,
{
    assert(0 <= 2 * w * (n - 1)) by (nonlinear_arith)
        requires
            0 <= w,
            n >= 1,
    ;
    assert(2 * w * (n - 1) <= 510000 * (n - 1)) by (nonlinear_arith)
        requires
            w <= 255000,
            n >= 1,
    ;
    assert((2 * w * (n - 1) + 255000) / 510000 < n) by (nonlinear_arith)
        requires
            2 * w * (n - 1) <= 510000 * (n - 1),
            n >= 1,
    ;
}

/// Black takes the first glyph and full white the last; a brighter pixel
/// never takes an earlier glyph than a darker one.
pub proof fn lemma_index_endpoints_and_monotone(n: nat, w1: int, w2: int)
    requires
        n >= 2,
        0 <= w1 <= w2 <= 255000,
    ensures
        index_of_weight(0, n) == 0,
        index_of_weight(255000, n) == n - 1,
        glyph_index(0, 0, 0, n) == 0,
        glyph_index(255, 255, 255, n) == n - 1,
        index_of_weight(w1, n) <= index_of_weight(w2, n),
{
    assert(2 * 0 * (n - 1) == 0) by (nonlinear_arith);
    assert(weighted_luma(0, 0, 0) == 0);
    assert(weighted_luma(255, 255, 255) == 255000);
    assert(2 * 255000 * (n - 1) + 255000 == 510000 * (n - 1) + 255000);
    assert((510000 * (n - 1) + 255000) / 510000 == n - 1) by (nonlinear_arith)
        requires
            n >= 2,
    ;
    assert(2 * w1 * (n - 1) <= 2 * w2 * (n - 1)) by (nonlinear_arith)
        requires
            w1 <= w2,
            n >= 2,
    ;
    assert((2 * w1 * (n - 1) + 255000) / 510000 <= (2 * w2 * (n - 1) + 255000) / 510000)
        by (nonlinear_arith)
        requires
            2 * w1 * (n - 1) <= 2 * w2 * (n - 1),
    ;
}

} // verus!
