//! The glyph cache: rasterizes each character once with FreeType and keeps
//! every glyph, its alpha bitmap and its metrics, at a stable index for the
//! cache's whole lifetime.
use vstd::prelude::*;

verus! {

#[verifier::external_type_specification]
#[verifier::external_body]
pub struct ExLibrary(freetype::Library);

#[verifier::external_type_specification]
#[verifier::external_body]
#[verifier::reject_recursive_types(BYTES)]
pub struct ExFace<BYTES>(freetype::Face<BYTES>);

#[verifier::external_type_specification]
#[verifier::external_body]
pub struct ExFtError(freetype::Error);

/// Where the font is looked for by `WordContext::make`.
pub const FONT_PATH: &'static str = "/usr/share/fonts/TTF/DejaVuSans.ttf";

/// The rasterization height, in pixels, used by `WordContext::make`.
pub const PIXEL_HEIGHT: u32 = 48;

/// Size and placement of one rasterized glyph, in pixels. The advance is in
/// 26.6 fixed point: six fractional bits.
#[derive(Clone, Copy, Debug, PartialEq, Eq)]
pub struct Metrics {
    pub width: u32,
    pub height: u32,
    pub left: i32,
    pub top: i32,
    pub advance_x: i64,
    pub advance_y: i64,
}

/// A glyph as the cache keeps it: its alpha bitmap, `metrics.width` bytes per
/// row and `metrics.height` rows, and its metrics.
pub struct Glyph {
    pub bitmap: Vec<u8>,
    pub metrics: Metrics,
}

/// What FreeType left in its glyph slot after rendering the character `ch`.
pub struct Raster {
    pub ch: char,
    pub buffer: Vec<u8>,
    pub width: i32,
    pub rows: i32,
    pub left: i32,
    pub top: i32,
    pub advance_x: i64,
    pub advance_y: i64,
}

#[derive(Clone, Copy, Debug, PartialEq, Eq)]
pub enum FontError {
    /// The rasterization library could not start, or the font file is
    /// missing or unreadable.
    LoadFailed,
    /// The font does not take the requested pixel size.
    SizeFailed,
}

#[derive(Clone, Copy, Debug, PartialEq, Eq)]
pub enum RasterError {
    /// FreeType could not load or render the character.
    RenderFailed,
    /// The rendered bitmap has a negative size or a buffer too short for it.
    BadBitmap,
}

/// Relies on freetype::Library::init, which starts a FreeType library
/// instance; it can fail, so nothing is promised of the outcome.
#[verifier::external_body]
fn ft_init() -> (r: Result<freetype::Library, freetype::Error>) {
    freetype::Library::init()
}

/// Relies on freetype::Library::new_face, which opens the font file at `path`;
/// whether it succeeds depends on the file system. On success the path that
/// was opened is handed back with the face.
#[verifier::external_body]
fn ft_new_face(lib: &freetype::Library, path: &str) -> (r: Result<
    (freetype::Face, String),
    freetype::Error,
>)
    ensures
        r matches Ok((_, p)) ==> p@ == path@,
{
    let face = lib.new_face(path, 0)?;
    Ok((face, path.to_string()))
}

/// Relies on freetype::Face::set_pixel_sizes, which sets the size that later
/// characters are rendered at; on success the height that was set is handed
/// back.
#[verifier::external_body]
fn ft_set_pixel_height(face: &freetype::Face, height: u32) -> (r: Result<u32, freetype::Error>)
    ensures
        r matches Ok(h) ==> h == height,
{
    face.set_pixel_sizes(0, height)?;
    Ok(height)
}

/// Relies on freetype::Face::load_char with the RENDER flag, which renders
/// `ch` into the face's glyph slot; the bitmap, bearings and advance are then
/// copied out of that slot. What comes back depends on the font file.
#[verifier::external_body]
fn ft_render_char(face: &freetype::Face, ch: char) -> (r: Result<Raster, freetype::Error>)
    ensures
        r matches Ok(g) ==> g.ch == ch,
{
    face.load_char(ch as usize, freetype::face::LoadFlag::RENDER)?;
    let g = face.glyph();
    let b = g.bitmap();
    Ok(Raster {
        ch,
        buffer: b.buffer().to_vec(),
        width: b.width(),
        rows: b.rows(),
        left: g.bitmap_left(),
        top: g.bitmap_top(),
        advance_x: g.advance().x as i64,
        advance_y: g.advance().y as i64,
    })
}

/// One entry of the cache: a character and its glyph.
pub struct Entry {
    pub ch: char,
    pub glyph: Glyph,
}

/// The metrics of a rendered bitmap, if its size is sound: width and rows
/// not negative, and a buffer that holds `width * rows` bytes.
pub open spec fn raster_metrics(r: Raster) -> Option<Metrics> {
    if 0 <= r.width && 0 <= r.rows && r.width * r.rows <= r.buffer@.len() {
        Some(
            Metrics {
                width: r.width as u32,
                height: r.rows as u32,
                left: r.left,
                top: r.top,
                advance_x: r.advance_x,
                advance_y: r.advance_y,
            },
        )
    } else {
        None
    }
}

/// Checks a rendered bitmap's size and takes its metrics.
pub fn check_raster(r: &Raster) -> (res: Result<Metrics, RasterError>)
    ensures
        match raster_metrics(*r) {
            Some(m) => res == Ok::<Metrics, RasterError>(m),
            None => res == Err::<Metrics, RasterError>(RasterError::BadBitmap),
        },
{
    if r.width < 0 || r.rows < 0 {
        return Err(RasterError::BadBitmap);
    }
    let w = r.width as u64;
    let h = r.rows as u64;
    assert(w * h <= 0x7fff_ffff * 0x7fff_ffff) by (nonlinear_arith)
        requires
            w <= 0x7fff_ffff,
            h <= 0x7fff_ffff,
    ;
    if w * h > r.buffer.len() as u64 {
        return Err(RasterError::BadBitmap);
    }
    Ok(
        Metrics {
            width: r.width as u32,
            height: r.rows as u32,
            left: r.left,
            top: r.top,
            advance_x: r.advance_x,
            advance_y: r.advance_y,
        },
    )
}

/// What one call of `WordContext::glyph(ch)` does, taking the cache from `c`
/// to `n` and giving `r`. A character already present is answered from the
/// cache: nothing changes and the rasterizer is not called. Otherwise the
/// rasterizer is called once, for `ch`; on success the glyph built from its
/// output is appended, on failure the error says why and no entry is added.
/// Earlier entries never move or change, and the font and size stay fixed.
pub open spec fn glyph_outcome(
    c: WordContext,
    ch: char,
    r: Result<usize, RasterError>,
    n: WordContext,
) -> bool {
    &&& n.wf()
    &&& n.font_path() == c.font_path()
    &&& n.pixel_height() == c.pixel_height()
    &&& if c.keys().contains(ch) {
        &&& r matches Ok(i) && i < c.keys().len() && c.keys()[i as int] == ch
        &&& n.keys() == c.keys()
        &&& n.glyphs() == c.glyphs()
        &&& n.renders() == c.renders()
    } else {
        &&& n.renders().len() == c.renders().len() + 1
        &&& n.renders().drop_last() == c.renders()
        &&& n.renders().last().0 == ch
        &&& match r {
            Ok(i) => {
                &&& i == c.keys().len()
                &&& n.keys() == c.keys().push(ch)
                &&& n.glyphs().len() == c.glyphs().len() + 1
                &&& n.glyphs().subrange(0, c.glyphs().len() as int) == c.glyphs()
                &&& match n.renders().last().1 {
                    Some(ras) => ras.ch == ch && raster_metrics(ras) == Some(
                        n.glyphs().last().metrics,
                    ) && n.glyphs().last().bitmap@ == ras.buffer@,
                    None => false,
                }
            },
            Err(e) => {
                &&& n.keys() == c.keys()
                &&& n.glyphs() == c.glyphs()
                &&& match n.renders().last().1 {
                    Some(ras) => ras.ch == ch && raster_metrics(ras) is None && e
                        == RasterError::BadBitmap,
                    None => e == RasterError::RenderFailed,
                }
            },
        }
    }
}

/// Asking twice for the same character gives the same index, and the second
/// request, answered from the cache, changes nothing and rasterizes nothing.
pub proof fn lemma_glyph_idempotent(
    c0: WordContext,
    ch: char,
    r1: Result<usize, RasterError>,
    c1: WordContext,
    r2: Result<usize, RasterError>,
    c2: WordContext,
)
    requires
        glyph_outcome(c0, ch, r1, c1),
        glyph_outcome(c1, ch, r2, c2),
        r1 is Ok,
    ensures
        r2 == r1,
        c2.keys() == c1.keys(),
        c2.glyphs() == c1.glyphs(),
        c2.renders() == c1.renders(),
{
    let i = r1->Ok_0;
    assert(c1.keys()[i as int] == ch);
    assert(c1.keys().contains(ch));
    let j = r2->Ok_0;
    assert(c1.keys()[j as int] == ch);
}

/// `ctxs` is a run of requests: the cache went from `ctxs[k]` to
/// `ctxs[k + 1]` by asking for `chs[k]`, which gave `rs[k]`.
pub open spec fn glyph_run(
    ctxs: Seq<WordContext>,
    chs: Seq<char>,
    rs: Seq<Result<usize, RasterError>>,
) -> bool {
    &&& ctxs.len() == chs.len() + 1
    &&& rs.len() == chs.len()
    &&& forall|k: int|
        0 <= k < chs.len() ==> #[trigger] glyph_outcome(ctxs[k], chs[k], rs[k], ctxs[k + 1])
}

proof fn lemma_run_prefix(
    ctxs: Seq<WordContext>,
    chs: Seq<char>,
    rs: Seq<Result<usize, RasterError>>,
)
    requires
        glyph_run(ctxs, chs, rs),
        chs.len() > 0,
    ensures
        glyph_run(ctxs.drop_last(), chs.drop_last(), rs.drop_last()),
{
    assert forall|k: int| 0 <= k < chs.drop_last().len() implies #[trigger] glyph_outcome(
        ctxs.drop_last()[k],
        chs.drop_last()[k],
        rs.drop_last()[k],
        ctxs.drop_last()[k + 1],
    ) by {
        assert(glyph_outcome(ctxs[k], chs[k], rs[k], ctxs[k + 1]));
    }
}

/// Along any run of requests, whatever characters they ask for, an entry once
/// cached keeps its index, its character and its glyph.
pub proof fn lemma_glyphs_stable(
    ctxs: Seq<WordContext>,
    chs: Seq<char>,
    rs: Seq<Result<usize, RasterError>>,
    i: int,
)
    requires
        glyph_run(ctxs, chs, rs),
        ctxs[0].wf(),
        0 <= i < ctxs[0].glyphs().len(),
    ensures
        forall|k: int|
            0 <= k < ctxs.len() ==> i < (#[trigger] ctxs[k]).glyphs().len() && ctxs[k].glyphs()[i]
                == ctxs[0].glyphs()[i] && i < ctxs[k].keys().len() && ctxs[k].keys()[i]
                == ctxs[0].keys()[i],
    decreases chs.len(),
{
    if chs.len() > 0 {
        let n = chs.len() - 1;
        lemma_run_prefix(ctxs, chs, rs);
        lemma_glyphs_stable(ctxs.drop_last(), chs.drop_last(), rs.drop_last(), i);
        assert(glyph_outcome(ctxs[n], chs[n], rs[n], ctxs[n + 1]));
        assert(ctxs.drop_last()[n] == ctxs[n]);
        if !ctxs[n].keys().contains(chs[n]) && rs[n] is Ok {
            assert(ctxs[n + 1].glyphs().subrange(0, ctxs[n].glyphs().len() as int)[i]
                == ctxs[n].glyphs()[i]);
            assert(ctxs[n + 1].keys()[i] == ctxs[n].keys()[i]);
        }
        assert forall|k: int| 0 <= k < ctxs.len() implies i < (#[trigger] ctxs[k]).glyphs().len()
            && ctxs[k].glyphs()[i] == ctxs[0].glyphs()[i] && i < ctxs[k].keys().len()
            && ctxs[k].keys()[i] == ctxs[0].keys()[i] by {
            if k < ctxs.len() - 1 {
                assert(ctxs.drop_last()[k] == ctxs[k]);
            }
        }
    }
}

/// Along any run of requests, a character that is cached is never handed to
/// the rasterizer again: it stays cached, and no later rasterizer call is
/// for it.
pub proof fn lemma_cached_never_rendered(
    ctxs: Seq<WordContext>,
    chs: Seq<char>,
    rs: Seq<Result<usize, RasterError>>,
    ch: char,
)
    requires
        glyph_run(ctxs, chs, rs),
        ctxs[0].keys().contains(ch),
    ensures
        forall|k: int|
            0 <= k < ctxs.len() ==> (#[trigger] ctxs[k]).keys().contains(ch)
                && ctxs[0].renders().len() <= ctxs[k].renders().len() && forall|j: int|
                ctxs[0].renders().len() <= j < ctxs[k].renders().len() ==> ctxs[k].renders()[j].0
                    != ch,
    decreases chs.len(),
{
    if chs.len() > 0 {
        let n = chs.len() - 1;
        lemma_run_prefix(ctxs, chs, rs);
        lemma_cached_never_rendered(ctxs.drop_last(), chs.drop_last(), rs.drop_last(), ch);
        assert(glyph_outcome(ctxs[n], chs[n], rs[n], ctxs[n + 1]));
        assert(ctxs.drop_last()[n] == ctxs[n]);
        let a = ctxs[n];
        let b = ctxs[n + 1];
        assert(a.keys().contains(ch));
        if !a.keys().contains(chs[n]) {
            assert(chs[n] != ch);
            if rs[n] is Ok {
                assert(b.keys()[a.keys().len() as int] == chs[n]);
                let t = choose|t: int| 0 <= t < a.keys().len() && a.keys()[t] == ch;
                assert(b.keys()[t] == ch);
            }
            assert forall|j: int| ctxs[0].renders().len() <= j < b.renders().len() implies b.renders()[j].0
                != ch by {
                if j < a.renders().len() {
                    assert(b.renders().drop_last()[j] == a.renders()[j]);
                }
            }
        }
        assert forall|k: int| 0 <= k < ctxs.len() implies (#[trigger] ctxs[k]).keys().contains(ch)
            && ctxs[0].renders().len() <= ctxs[k].renders().len() && forall|j: int|
            ctxs[0].renders().len() <= j < ctxs[k].renders().len() ==> ctxs[k].renders()[j].0
                != ch by {
            if k < ctxs.len() - 1 {
                assert(ctxs.drop_last()[k] == ctxs[k]);
            }
        }
    }
}

/// The glyph cache. Each character is rasterized at most once; its glyph then
/// keeps its index, and stays unchanged, for as long as the cache lives. The
/// font and the pixel height are fixed when the cache is made.
/// The cache is owned by one thread and is neither `Sync` nor cloneable: every
/// miss overwrites the rasterizer's single glyph slot.
pub struct WordContext {
    library: freetype::Library,
    face: freetype::Face,
    font_path: String,
    pixel_height: u32,
    entries: Vec<Entry>,
    renders: Ghost<Seq<(char, Option<Raster>)>>,
}

impl WordContext {
    /// Well-formed: one glyph for each key, and no character cached twice.
    pub open spec fn wf(&self) -> bool {
        &&& self.keys().len() == self.glyphs().len()
        &&& self.keys().no_duplicates()
    }

    /// The cached characters, in the order they were first requested.
    pub closed spec fn keys(&self) -> Seq<char> {
        self.entries@.map_values(|e: Entry| e.ch)
    }

    /// The cached glyphs, at the same indices as their characters.
    pub closed spec fn glyphs(&self) -> Seq<Glyph> {
        self.entries@.map_values(|e: Entry| e.glyph)
    }

    /// The path of the font that the cache renders with.
    pub closed spec fn font_path(&self) -> Seq<char> {
        self.font_path@
    }

    /// The height, in pixels, that the cache renders at.
    pub closed spec fn pixel_height(&self) -> u32 {
        self.pixel_height
    }

    /// Every call made to the rasterizer, in order: the character, and what
    /// came back (nothing if it failed).
    pub closed spec fn renders(&self) -> Seq<(char, Option<Raster>)> {
        self.renders@
    }

    /// Starts FreeType, opens the font at `path` and sets its rendering height
    /// to `pixel_height` pixels. The new cache is empty and has rasterized
    /// nothing.
    pub fn initialize(path: &str, pixel_height: u32) -> (r: Result<WordContext, FontError>)
        ensures
            r matches Ok(c) ==> {
                &&& c.wf()
                &&& c.keys().len() == 0
                &&& c.glyphs().len() == 0
                &&& c.renders().len() == 0
                &&& c.font_path() == path@
                &&& c.pixel_height() == pixel_height
            },
    {
        let library = match ft_init() {
            Ok(l) => l,
            Err(_) => return Err(FontError::LoadFailed),
        };
        let (face, font_path) = match ft_new_face(&library, path) {
            Ok(f) => f,
            Err(_) => return Err(FontError::LoadFailed),
        };
        let height = match ft_set_pixel_height(&face, pixel_height) {
            Ok(h) => h,
            Err(_) => return Err(FontError::SizeFailed),
        };
        let c = WordContext {
            library,
            face,
            font_path,
            pixel_height: height,
            entries: Vec::new(),
            renders: Ghost(Seq::empty()),
        };
        assert(c.keys() =~= Seq::<char>::empty());
        assert(c.glyphs() =~= Seq::<Glyph>::empty());
        Ok(c)
    }

    /// A cache over the default font at the default height of 48 pixels.
    pub fn make() -> (r: Result<WordContext, FontError>)
        ensures
            r matches Ok(c) ==> {
                &&& c.wf()
                &&& c.keys().len() == 0
                &&& c.glyphs().len() == 0
                &&& c.renders().len() == 0
                &&& c.font_path() == FONT_PATH@
                &&& c.pixel_height() == 48
            },
    {
        WordContext::initialize(FONT_PATH, PIXEL_HEIGHT)
    }

    /// The number of cached glyphs.
    pub fn len(&self) -> (r: usize)
        ensures
            r == self.keys().len(),
            r == self.glyphs().len(),
    {
        self.entries.len()
    }

    /// The height, in pixels, that the cache renders at.
    pub fn height(&self) -> (r: u32)
        ensures
            r == self.pixel_height(),
    {
        self.pixel_height
    }

    /// The index of `ch`, if it is cached.
    pub fn find(&self, ch: char) -> (r: Option<usize>)
        ensures
            match r {
                Some(i) => i < self.keys().len() && self.keys()[i as int] == ch,
                None => !self.keys().contains(ch),
            },
    {
        let mut i: usize = 0;
        while i < self.entries.len()
            invariant
                i <= self.entries@.len(),
                forall|k: int| 0 <= k < i ==> self.keys()[k] != ch,
            decreases self.entries@.len() - i,
        {
            if self.entries[i].ch == ch {
                return Some(i);
            }
            i = i + 1;
        }
        None
    }

    /// The glyph at index `i`.
    pub fn get(&self, i: usize) -> (r: &Glyph)
        requires
            i < self.glyphs().len(),
        ensures
            *r == self.glyphs()[i as int],
    {
        &self.entries[i].glyph
    }

    /// The index of the glyph of `ch`, rasterizing it first if it is not
    /// cached yet. A failure caches nothing.
    pub fn glyph(&mut self, ch: char) -> (r: Result<usize, RasterError>)
        requires
            old(self).wf(),
        ensures
            glyph_outcome(*old(self), ch, r, *final(self)),
    {
        match self.find(ch) {
            Some(i) => return Ok(i),
            None => {},
        }
        let ghost log = self.renders@;
        let raster = match ft_render_char(&self.face, ch) {
            Ok(g) => {
                self.renders = Ghost(log.push((ch, Some(g))));
                assert(self.renders().drop_last() =~= log);
                g
            },
            Err(_) => {
                self.renders = Ghost(log.push((ch, None)));
                assert(self.renders().drop_last() =~= log);
                return Err(RasterError::RenderFailed);
            },
        };
        let metrics = match check_raster(&raster) {
            Ok(m) => m,
            Err(e) => return Err(e),
        };
        let ghost old_keys = self.keys();
        let ghost old_glyphs = self.glyphs();
        let ghost buffer = raster.buffer@;
        let i = self.entries.len();
        self.entries.push(Entry { ch, glyph: Glyph { bitmap: raster.buffer, metrics } });
        proof {
            assert(self.keys() =~= old_keys.push(ch));
            assert(self.glyphs().subrange(0, old_glyphs.len() as int) =~= old_glyphs);
            assert(self.glyphs().last().bitmap@ == buffer);
            assert(self.renders().drop_last() =~= log);
            assert(self.renders().last().1 matches Some(ras) && raster_metrics(ras) == Some(metrics));
        }
        Ok(i)
    }
}

} // verus!
