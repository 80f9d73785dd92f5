//! A word laid out from its glyphs: the pixel box that encloses it, which
//! becomes its collision box, and the offset of each glyph from the box's
//! drawing origin.
use vstd::prelude::*;
use crate::glyph::{Glyph, Metrics, RasterError, WordContext};

verus! {

/// The horizontal advances of `ms`, in whole pixels (the 26.6 value shifted
/// right by six bits), summed.
pub open spec fn advance_x_sum(ms: Seq<Metrics>) -> int
    decreases ms.len(),
{
    if ms.len() == 0 {
        0
    } else {
        advance_x_sum(ms.drop_last()) + (ms.last().advance_x >> 6) as int
    }
}

/// The vertical advances of `ms`, in whole pixels, summed.
pub open spec fn advance_y_sum(ms: Seq<Metrics>) -> int
    decreases ms.len(),
{
    if ms.len() == 0 {
        0
    } else {
        advance_y_sum(ms.drop_last()) + (ms.last().advance_y >> 6) as int
    }
}

/// The width of a word's box: the advances of every glyph but the last, and
/// the full bitmap width of the last.
pub open spec fn measured_width(ms: Seq<Metrics>) -> int {
    ms.last().width + advance_x_sum(ms.drop_last())
}

/// The height of a word's box, built in the same way from the vertical
/// advances and the last bitmap's height.
pub open spec fn measured_height(ms: Seq<Metrics>) -> int {
    ms.last().height + advance_y_sum(ms.drop_last())
}

/// The box that encloses a word, in pixels: the first glyph's left bearing
/// and baseline offset, and the word's width and height.
#[derive(Clone, Copy, Debug, PartialEq, Eq)]
pub struct PixelBox {
    pub x: i64,
    pub y: i64,
    pub width: i128,
    pub height: i128,
}

const STEP_BOUND: i128 = 0x8000_0000_0000_0000;

/// Measures the box of a word whose glyphs have the metrics `ms`, in reading
/// order.
pub fn measure(ms: &[Metrics]) -> (r: PixelBox)
    requires
        ms@.len() > 0,
    ensures
        r.x == ms@[0].left,
        r.y == ms@[0].height - ms@[0].top,
        r.width == measured_width(ms@),
        r.height == measured_height(ms@),
{
    let n = ms.len();
    let first = ms[0];
    let last = ms[n - 1];
    let mut w: i128 = 0;
    let mut h: i128 = 0;
    let mut k: usize = 0;
    while k < n - 1
        invariant
            n == ms@.len(),
            k <= n - 1,
            w == advance_x_sum(ms@.take(k as int)),
            h == advance_y_sum(ms@.take(k as int)),
            -(k as int) * STEP_BOUND <= w <= (k as int) * STEP_BOUND,
            -(k as int) * STEP_BOUND <= h <= (k as int) * STEP_BOUND,
        decreases n - 1 - k,
    {
        let m = ms[k];
        assert(ms@.take(k + 1).drop_last() =~= ms@.take(k as int));
        w = w + (m.advance_x >> 6) as i128;
        h = h + (m.advance_y >> 6) as i128;
        k = k + 1;
    }
    assert(ms@.take(k as int) =~= ms@.drop_last());
    PixelBox {
        x: first.left as i64,
        y: first.height as i64 - first.top as i64,
        width: last.width as i128 + w,
        height: last.height as i128 + h,
    }
}

/// Where each glyph of a word is drawn, relative to the box's top-left
/// corner at `(origin_x, origin_y)`: the pen starts there and moves by each
/// glyph's advance; a glyph is placed at the pen plus its left bearing, and
/// the pen minus its top bearing.
pub fn pen_offsets(ms: &[Metrics], origin_x: i64, origin_y: i64) -> (r: Vec<(i128, i128)>)
    ensures
        r@.len() == ms@.len(),
        forall|i: int|
            0 <= i < ms@.len() ==> (#[trigger] r@[i]).0 == origin_x + advance_x_sum(ms@.take(i))
                + ms@[i].left && r@[i].1 == origin_y + advance_y_sum(ms@.take(i)) - ms@[i].top,
{
    let mut out: Vec<(i128, i128)> = Vec::new();
    let mut pen_x: i128 = 0;
    let mut pen_y: i128 = 0;
    let mut k: usize = 0;
    while k < ms.len()
        invariant
            k <= ms@.len(),
            out@.len() == k,
            pen_x == advance_x_sum(ms@.take(k as int)),
            pen_y == advance_y_sum(ms@.take(k as int)),
            -(k as int) * STEP_BOUND <= pen_x <= (k as int) * STEP_BOUND,
            -(k as int) * STEP_BOUND <= pen_y <= (k as int) * STEP_BOUND,
            forall|i: int|
                0 <= i < k ==> (#[trigger] out@[i]).0 == origin_x + advance_x_sum(ms@.take(i))
                    + ms@[i].left && out@[i].1 == origin_y + advance_y_sum(ms@.take(i))
                    - ms@[i].top,
        decreases ms@.len() - k,
    {
        let m = ms[k];
        out.push(
            (
                origin_x as i128 + pen_x + m.left as i128,
                origin_y as i128 + pen_y - m.top as i128,
            ),
        );
        assert(ms@.take(k + 1).drop_last() =~= ms@.take(k as int));
        pen_x = pen_x + (m.advance_x >> 6) as i128;
        pen_y = pen_y + (m.advance_y >> 6) as i128;
        k = k + 1;
    }
    out
}

/// `k` glyphs that all advance `a` whole pixels sum to `k * a`.
proof fn lemma_uniform_advance(ms: Seq<Metrics>, m: Metrics, a: int)
    requires
        forall|i: int| 0 <= i < ms.len() ==> ms[i] == m,
        (m.advance_x >> 6) as int == a,
    ensures
        advance_x_sum(ms) == ms.len() * a,
    decreases ms.len(),
{
    if ms.len() > 0 {
        lemma_uniform_advance(ms.drop_last(), m, a);
        assert(ms.len() * a == (ms.len() - 1) * a + a) by (nonlinear_arith);
    }
}

/// A word of `n` identical glyphs, each advancing `a` whole pixels with a
/// bitmap `w` pixels wide, is `(n - 1) * a + w` pixels wide.
pub proof fn lemma_uniform_width(ms: Seq<Metrics>, m: Metrics, a: int)
    requires
        ms.len() > 0,
        forall|i: int| 0 <= i < ms.len() ==> ms[i] == m,
        (m.advance_x >> 6) as int == a,
    ensures
        measured_width(ms) == (ms.len() - 1) * a + m.width,
{
    lemma_uniform_advance(ms.drop_last(), m, a);
}

/// The pen starts at the origin and each glyph moves it by its own advance:
/// the pen of glyph `i + 1` is the pen of glyph `i` plus that glyph's advance.
pub proof fn lemma_pen_advances(ms: Seq<Metrics>, i: int)
    requires
        0 <= i < ms.len(),
    ensures
        advance_x_sum(ms.take(0)) == 0,
        advance_y_sum(ms.take(0)) == 0,
        advance_x_sum(ms.take(i + 1)) == advance_x_sum(ms.take(i)) + (ms[i].advance_x >> 6) as int,
        advance_y_sum(ms.take(i + 1)) == advance_y_sum(ms.take(i)) + (ms[i].advance_y >> 6) as int,
{
    assert(ms.take(i + 1).drop_last() =~= ms.take(i));
    assert(ms.take(0) =~= Seq::<Metrics>::empty());
}

#[derive(Clone, Copy, Debug, PartialEq, Eq)]
pub enum WordError {
    /// A word must have at least one character.
    Empty,
    /// One of the word's characters could not be rasterized.
    Raster(RasterError),
}

/// The metrics of the glyphs at `indices`.
pub open spec fn metrics_at(glyphs: Seq<Glyph>, indices: Seq<usize>) -> Seq<Metrics> {
    indices.map_values(|i: usize| glyphs[i as int].metrics)
}

/// If `b` starts with `a` and `c` starts with `b`, then `c` starts with `a`.
proof fn lemma_prefix_trans<A>(a: Seq<A>, b: Seq<A>, c: Seq<A>)
    requires
        a.len() <= b.len() <= c.len(),
        b.subrange(0, a.len() as int) == a,
        c.subrange(0, b.len() as int) == b,
    ensures
        c.subrange(0, a.len() as int) == a,
        forall|t: int| 0 <= t < b.len() ==> c[t] == b[t],
{
    assert forall|t: int| 0 <= t < b.len() implies c[t] == b[t] by {
        assert(c.subrange(0, b.len() as int)[t] == c[t]);
    }
    assert forall|t: int| 0 <= t < a.len() implies c[t] == a[t] by {
        assert(b.subrange(0, a.len() as int)[t] == b[t]);
    }
    assert(c.subrange(0, a.len() as int) =~= a);
}

/// A word in the scene: the cache indices of its glyphs, in reading order,
/// their metrics, and the pixel box that encloses them.
pub struct WordBox {
    word: Vec<usize>,
    metrics: Vec<Metrics>,
    bounds: PixelBox,
}

impl WordBox {
    /// A word has at least one glyph, and one set of metrics per glyph.
    #[verifier::type_invariant]
    spec fn inv(self) -> bool {
        &&& self.word@.len() > 0
        &&& self.word@.len() == self.metrics@.len()
    }

    /// The cache indices of the word's glyphs.
    pub closed spec fn indices(&self) -> Seq<usize> {
        self.word@
    }

    /// The metrics of the word's glyphs.
    pub closed spec fn glyph_metrics(&self) -> Seq<Metrics> {
        self.metrics@
    }

    pub closed spec fn spec_bounds(&self) -> PixelBox {
        self.bounds
    }

    /// Resolves each character of `word` to a glyph of `word_ctx`, in order,
    /// and measures the word's box. An empty word is refused before the cache
    /// is touched. The cache gains no character that is not in the word, its
    /// earlier entries stay as they were, and its font and size do not change.
    /// On success the cache holds every character of the word; success is
    /// certain when all of them were cached already.
    pub fn make(word_ctx: &mut WordContext, word: &str) -> (r: Result<WordBox, WordError>)
        requires
            old(word_ctx).wf(),
        ensures
            final(word_ctx).wf(),
            final(word_ctx).font_path() == old(word_ctx).font_path(),
            final(word_ctx).pixel_height() == old(word_ctx).pixel_height(),
            word@.len() == 0 ==> r == Err::<WordBox, WordError>(WordError::Empty)
                && final(word_ctx).keys() == old(word_ctx).keys()
                && final(word_ctx).glyphs() == old(word_ctx).glyphs()
                && final(word_ctx).renders() == old(word_ctx).renders(),
            word@.len() > 0 ==> r != Err::<WordBox, WordError>(WordError::Empty),
            word@.len() > 0 && (forall|k: int|
                0 <= k < word@.len() ==> old(word_ctx).keys().contains(#[trigger] word@[k]))
                ==> r is Ok && final(word_ctx).keys() == old(word_ctx).keys()
                && final(word_ctx).glyphs() == old(word_ctx).glyphs(),
            old(word_ctx).keys().len() <= final(word_ctx).keys().len(),
            final(word_ctx).keys().subrange(0, old(word_ctx).keys().len() as int) == old(word_ctx).keys(),
            final(word_ctx).glyphs().subrange(0, old(word_ctx).glyphs().len() as int) == old(word_ctx).glyphs(),
            forall|x: char|
                #[trigger] final(word_ctx).keys().contains(x) ==> old(word_ctx).keys().contains(x)
                    || word@.contains(x),
            r matches Ok(b) ==> {
                &&& b.indices().len() == word@.len()
                &&& forall|k: int|
                    0 <= k < word@.len() ==> (#[trigger] b.indices()[k]) < final(word_ctx).keys().len()
                        && final(word_ctx).keys()[b.indices()[k] as int] == word@[k]
                &&& b.glyph_metrics() == metrics_at(final(word_ctx).glyphs(), b.indices())
                &&& b.spec_bounds().x == b.glyph_metrics()[0].left
                &&& b.spec_bounds().y == b.glyph_metrics()[0].height - b.glyph_metrics()[0].top
                &&& b.spec_bounds().width == measured_width(b.glyph_metrics())
                &&& b.spec_bounds().height == measured_height(b.glyph_metrics())
            },
    {
        let n = word.unicode_len();
        if n == 0 {
            return Err(WordError::Empty);
        }
        let ghost start = *word_ctx;
        let ghost keys0 = word_ctx.keys();
        let ghost glyphs0 = word_ctx.glyphs();
        let ghost all_cached = forall|k: int|
            0 <= k < word@.len() ==> keys0.contains(#[trigger] word@[k]);
        let mut indices: Vec<usize> = Vec::new();
        let mut ms: Vec<Metrics> = Vec::new();
        let mut k: usize = 0;
        while k < n
            invariant
                n == word@.len(),
                k <= n,
                start == *old(word_ctx),
                keys0 == start.keys(),
                glyphs0 == start.glyphs(),
                all_cached == (forall|k: int|
                    0 <= k < word@.len() ==> keys0.contains(#[trigger] word@[k])),
                all_cached ==> word_ctx.keys() == keys0 && word_ctx.glyphs() == glyphs0,
                word_ctx.wf(),
                start.wf(),
                word_ctx.font_path() == start.font_path(),
                word_ctx.pixel_height() == start.pixel_height(),
                keys0.len() <= word_ctx.keys().len(),
                word_ctx.keys().subrange(0, keys0.len() as int) == keys0,
                word_ctx.glyphs().subrange(0, glyphs0.len() as int) == glyphs0,
                forall|x: char|
                    #[trigger] word_ctx.keys().contains(x) ==> keys0.contains(x) || word@.contains(x),
                indices@.len() == k,
                forall|j: int|
                    0 <= j < k ==> (#[trigger] indices@[j]) < word_ctx.keys().len()
                        && word_ctx.keys()[indices@[j] as int] == word@[j],
                ms@ == metrics_at(word_ctx.glyphs(), indices@),
            decreases n - k,
        {
            let ch = word.get_char(k);
            assert(all_cached ==> keys0.contains(word@[k as int]));
            let ghost before = *word_ctx;
            let i = match word_ctx.glyph(ch) {
                Ok(i) => i,
                Err(e) => {
                    return Err(WordError::Raster(e));
                },
            };
            proof {
                assert(word_ctx.keys().subrange(0, before.keys().len() as int) =~= before.keys());
                assert(word_ctx.glyphs().subrange(0, before.glyphs().len() as int) =~= before.glyphs());
                lemma_prefix_trans(keys0, before.keys(), word_ctx.keys());
                lemma_prefix_trans(glyphs0, before.glyphs(), word_ctx.glyphs());
                assert forall|x: char| #[trigger] word_ctx.keys().contains(x) implies keys0.contains(
                    x,
                ) || word@.contains(x) by {
                    if !before.keys().contains(x) {
                        assert(x == ch);
                        assert(word@[k as int] == ch);
                    }
                }
            }
            let m = word_ctx.get(i).metrics;
            indices.push(i);
            ms.push(m);
            proof {
                assert(ms@ =~= metrics_at(word_ctx.glyphs(), indices@));
            }
            k = k + 1;
        }
        let bounds = measure(ms.as_slice());
        Ok(WordBox { word: indices, metrics: ms, bounds })
    }

    /// The number of glyphs in the word.
    pub fn len(&self) -> (r: usize)
        ensures
            r == self.indices().len(),
            r == self.glyph_metrics().len(),
            r > 0,
    {
        proof {
            use_type_invariant(self);
        }
        self.word.len()
    }

    /// The cache index of the word's `k`-th glyph.
    pub fn glyph_index(&self, k: usize) -> (r: usize)
        requires
            k < self.indices().len(),
        ensures
            r == self.indices()[k as int],
    {
        self.word[k]
    }

    /// The word's box, in pixels.
    pub fn bounds(&self) -> (r: PixelBox)
        ensures
            r == self.spec_bounds(),
    {
        self.bounds
    }

    /// Where each glyph is drawn, relative to the box's top-left corner at
    /// `(origin_x, origin_y)`.
    pub fn offsets(&self, origin_x: i64, origin_y: i64) -> (r: Vec<(i128, i128)>)
        ensures
            r@.len() == self.glyph_metrics().len(),
            r@.len() == self.indices().len(),
            forall|i: int|
                0 <= i < self.glyph_metrics().len() ==> (#[trigger] r@[i]).0 == origin_x
                    + advance_x_sum(self.glyph_metrics().take(i)) + self.glyph_metrics()[i].left
                    && r@[i].1 == origin_y + advance_y_sum(self.glyph_metrics().take(i))
                    - self.glyph_metrics()[i].top,
    {
        proof {
            use_type_invariant(self);
        }
        pen_offsets(self.metrics.as_slice(), origin_x, origin_y)
    }
}

} // verus!
