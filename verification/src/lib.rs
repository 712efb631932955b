//! Renders binary raster images as Unicode text art: each rectangular pixel
//! block is mapped to the best-matching glyph of a chosen glyph set.
//!
//! The pieces are: an index builder that turns an ordered glyph catalog into
//! a total fragment-to-glyph table by approximate nearest-pattern search
//! ([`index`]), glyph sets backed by such tables or by a closed-form bit
//! remapping ([`glyphsets`]), a streaming scanner that packs overlapping
//! pixel blocks into integer fragments and looks each one up
//! ([`Bmp2text::transform_and_write`]), and histogram utilities that pick a
//! binarization threshold ([`imageops`]).
use vstd::prelude::*;

pub mod bits;
pub mod glyphsets;
pub mod image;
pub mod imageops;
pub mod catalogs;
pub mod index;

pub use catalogs::{
    glyph_set_1x1, glyph_set_1x2, glyph_set_2x2, glyph_set_2x3, glyph_set_ms_2x3, glyph_set_slc,
};
pub use glyphsets::{
    frag_count, geom_wf, glyph_set_braille8, Braille8GlyphSet, GlyphSet, IndexedGlyphSet,
};
pub use image::{set_spans_by_fn, BitImage, ImageModel, ImageRead};
pub use imageops::{accumulate_histogram, equalization_map, find_threshold, median};
pub use index::{build_index, decode_mask, CatalogEntry, IndexEntry};

verus! {

/// A set of consecutive pixels of a constant length, packed LSB-first.
pub type Span = u16;

/// A small bitmap block encoded as an unsigned integer; bit `i` is the pixel
/// at row-major position `i` (1 = foreground).
pub type Fragment = u64;

/// Number of pixels packed in one [`Span`].
pub const SPAN_BITS: usize = 16;

/// Options for bitmap-to-text conversion: which glyph set to draw from.
pub struct Bmp2textOpts<G: GlyphSet> {
    pub glyph_set: G,
}

impl Bmp2textOpts<crate::glyphsets::IndexedGlyphSet> {
    /// Options using the default glyph set: the single-line-character set
    /// over 3 by 3 blocks with no overlap, built from its own catalog.
    pub fn new() -> (r: Self)
        ensures
            r.glyph_set.inv(),
            r.glyph_set.spec_mask_dims() == (3usize, 3usize),
            r.glyph_set.spec_mask_overlap() == (0usize, 0usize),
            r.glyph_set.spec_max_glyph_len() == 4,
            r.glyph_set.spec_glyph(0b111_111_111) == "█"@,
            r.glyph_set.spec_glyph(0) == " "@,
            forall|j: int|
                0 <= j < crate::catalogs::slc_catalog().len() && crate::glyphsets::first_with_pattern(
                    crate::catalogs::slc_catalog(),
                    9,
                    j,
                ) ==> r.glyph_set.spec_glyph(
                    crate::index::decode_spec(
                        (#[trigger] crate::catalogs::slc_catalog()[j]).pattern,
                        9,
                    ) as Fragment,
                ) == crate::catalogs::slc_catalog()[j].glyph,
            forall|f: Fragment|
                f < frag_count(3, 3) ==> #[trigger] crate::glyphsets::in_catalog(
                    crate::catalogs::slc_catalog(),
                    r.glyph_set.spec_glyph(f),
                ),
    {
        Bmp2textOpts { glyph_set: crate::catalogs::glyph_set_slc() }
    }
}

impl Default for Bmp2textOpts<crate::glyphsets::IndexedGlyphSet> {
    fn default() -> (r: Self)
        ensures
            r.glyph_set.inv(),
            r.glyph_set.spec_mask_dims() == (3usize, 3usize),
            r.glyph_set.spec_mask_overlap() == (0usize, 0usize),
            r.glyph_set.spec_max_glyph_len() == 4,
            r.glyph_set.spec_glyph(0b111_111_111) == "█"@,
            r.glyph_set.spec_glyph(0) == " "@,
            forall|j: int|
                0 <= j < crate::catalogs::slc_catalog().len() && crate::glyphsets::first_with_pattern(
                    crate::catalogs::slc_catalog(),
                    9,
                    j,
                ) ==> r.glyph_set.spec_glyph(
                    crate::index::decode_spec(
                        (#[trigger] crate::catalogs::slc_catalog()[j]).pattern,
                        9,
                    ) as Fragment,
                ) == crate::catalogs::slc_catalog()[j].glyph,
            forall|f: Fragment|
                f < frag_count(3, 3) ==> #[trigger] crate::glyphsets::in_catalog(
                    crate::catalogs::slc_catalog(),
                    r.glyph_set.spec_glyph(f),
                ),
    {
        Bmp2textOpts::new()
    }
}

/// Glyph columns produced for an image `width` pixels wide by blocks of
/// width `w` overlapping by `ow` columns.
pub open spec fn spec_num_cols(width: int, w: int, ow: int) -> int
    recommends
        0 <= ow < w,
{
    (if width >= ow {
        width - ow
    } else {
        0
    }) / (w - ow)
}

/// Text rows produced for an image `height` pixels tall by blocks of height
/// `h` overlapping by `oh` rows.
pub open spec fn spec_num_rows(height: int, h: int, oh: int) -> int
    recommends
        0 <= oh < h,
{
    spec_num_cols(height, h, oh)
}

/// How many glyphs one output line holds for an image of the given width.
pub fn num_glyphs_for_image_width<G: GlyphSet>(width: usize, opts: &Bmp2textOpts<G>) -> (r: usize)
    requires
        opts.glyph_set.inv(),
    ensures
        r == spec_num_cols(
            width as int,
            opts.glyph_set.spec_mask_dims().0 as int,
            opts.glyph_set.spec_mask_overlap().0 as int,
        ),
{
    proof {
        opts.glyph_set.lemma_inv_geom();
    }
    let dims = opts.glyph_set.mask_dims();
    let overlap = opts.glyph_set.mask_overlap();
    let avail = if width >= overlap[0] {
        width - overlap[0]
    } else {
        0
    };
    avail / (dims[0] - overlap[0])
}

/// How many output lines an image of the given height produces.
pub fn num_lines_for_image_height<G: GlyphSet>(height: usize, opts: &Bmp2textOpts<G>) -> (r: usize)
    requires
        opts.glyph_set.inv(),
    ensures
        r == spec_num_rows(
            height as int,
            opts.glyph_set.spec_mask_dims().1 as int,
            opts.glyph_set.spec_mask_overlap().1 as int,
        ),
{
    proof {
        opts.glyph_set.lemma_inv_geom();
    }
    let dims = opts.glyph_set.mask_dims();
    let overlap = opts.glyph_set.mask_overlap();
    let avail = if height >= overlap[1] {
        height - overlap[1]
    } else {
        0
    };
    avail / (dims[1] - overlap[1])
}

/// Value of the first `i` bits of the fragment assembled for the block at
/// output row `oy`, column `ox`: bit `i` is the pixel at row
/// `oy*(h-oh) + i/w`, column `ox*(w-ow) + i%w` (1 = foreground).
pub open spec fn frag_rec(
    img: crate::image::ImageModel,
    w: int,
    h: int,
    ow: int,
    oh: int,
    oy: int,
    ox: int,
    i: int,
) -> nat
    decreases i,
{
    if i <= 0 {
        0
    } else {
        frag_rec(img, w, h, ow, oh, oy, ox, i - 1) + (if img.pixel(
            oy * (h - oh) + (i - 1) / w,
            ox * (w - ow) + (i - 1) % w,
        ) {
            vstd::arithmetic::power2::pow2((i - 1) as nat)
        } else {
            0nat
        })
    }
}

/// The fragment value of one whole block.
pub open spec fn spec_fragment(
    img: crate::image::ImageModel,
    w: int,
    h: int,
    ow: int,
    oh: int,
    oy: int,
    ox: int,
) -> nat {
    frag_rec(img, w, h, ow, oh, oy, ox, w * h)
}

pub proof fn lemma_frag_rec_bound(
    img: crate::image::ImageModel,
    w: int,
    h: int,
    ow: int,
    oh: int,
    oy: int,
    ox: int,
    i: int,
)
    requires
        i <= 9,
    ensures
        frag_rec(img, w, h, ow, oh, oy, ox, i) < 512,
        i >= 0 ==> (frag_rec(img, w, h, ow, oh, oy, ox, i) as u64) < (1u64 << (i as u64)),
    decreases (if i >= 0 {
        i
    } else {
        0
    }),
{
    vstd::arithmetic::power2::lemma2_to64();
    if i <= 0 {
        assert(1u64 << 0u64 == 1u64) by (bit_vector);
    } else {
        lemma_frag_rec_bound(img, w, h, ow, oh, oy, ox, i - 1);
        crate::bits::lemma_shl1_pow2((i - 1) as u64);
        crate::bits::lemma_shl1_pow2(i as u64);
        vstd::arithmetic::power2::lemma_pow2_adds((i - 1) as nat, 1);
    }
}

pub proof fn lemma_frag_rec_bits(
    img: crate::image::ImageModel,
    w: int,
    h: int,
    ow: int,
    oh: int,
    oy: int,
    ox: int,
    i: int,
    j: u64,
)
    requires
        j < i,
        i <= 9,
    ensures
        crate::bits::bit64((frag_rec(img, w, h, ow, oh, oy, ox, i) as u64), j) == img.pixel(
            oy * (h - oh) + (j as int) / w,
            ox * (w - ow) + (j as int) % w,
        ),
    decreases i,
{
    let f1 = frag_rec(img, w, h, ow, oh, oy, ox, i - 1);
    lemma_frag_rec_bound(img, w, h, ow, oh, oy, ox, i - 1);
    let f1u = f1 as u64;
    let k = (i - 1) as u64;
    let b = img.pixel(oy * (h - oh) + (i - 1) / w, ox * (w - ow) + (i - 1) % w);
    crate::bits::lemma_shl1_pow2(k);
    vstd::arithmetic::power2::lemma2_to64();
    let cur = frag_rec(img, w, h, ow, oh, oy, ox, i) as u64;
    if b {
        assert(cur == f1u + (1u64 << k));
    } else {
        assert(cur == f1u);
    }
    if j == k {
        assert(crate::bits::bit64((f1u + (1u64 << k)) as u64, k) && !crate::bits::bit64(f1u, k))
            by (bit_vector)
            requires
                k <= 8,
                f1u < (1u64 << k),
        ;
    } else {
        assert(crate::bits::bit64((f1u + (1u64 << k)) as u64, j) == crate::bits::bit64(f1u, j))
            by (bit_vector)
            requires
                k <= 8,
                j < k,
                f1u < (1u64 << k),
        ;
        lemma_frag_rec_bits(img, w, h, ow, oh, oy, ox, i - 1, j);
    }
}

/// Adjacent output blocks read their shared pixel columns identically:
/// a bit in the leading overlap columns of one block equals the bit at the
/// same grid row, `w - ow` columns later, of the block to its left,
/// because both name the same pixel of the image.
pub proof fn lemma_overlap_shared_pixels(
    img: crate::image::ImageModel,
    w: int,
    h: int,
    ow: int,
    oh: int,
    oy: int,
    ox: int,
    p: u64,
)
    requires
        1 <= w,
        1 <= h,
        0 <= ow < w,
        0 <= oh < h,
        w * h <= 9,
        1 <= ox,
        p < w * h,
        (p as int) % w < ow,
    ensures
        crate::bits::bit64((spec_fragment(img, w, h, ow, oh, oy, ox) as u64), p)
            == crate::bits::bit64(
            (spec_fragment(img, w, h, ow, oh, oy, ox - 1) as u64),
            (p + (w - ow)) as u64,
        ),
{
    assert(w <= 9 && h <= 9) by (nonlinear_arith)
        requires
            1 <= w,
            1 <= h,
            w * h <= 9,
    ;
    let i = (p as int) / w;
    let r = (p as int) % w;
    vstd::arithmetic::div_mod::lemma_fundamental_div_mod(p as int, w);
    vstd::arithmetic::div_mod::lemma_mod_bound(p as int, w);
    assert(0 <= i < h) by (nonlinear_arith)
        requires
            (p as int) == w * i + r,
            0 <= r < w,
            0 <= (p as int) < w * h,
            1 <= w,
    ;
    let p2 = (p + (w - ow)) as u64;
    assert(w * i == i * w) by (nonlinear_arith);
    vstd::arithmetic::div_mod::lemma_fundamental_div_mod_converse(p2 as int, w, i, r + w - ow);
    assert(p2 < w * h) by (nonlinear_arith)
        requires
            (p2 as int) == w * i + (r + w - ow),
            0 <= r < ow < w,
            i < h,
            1 <= w,
    ;
    lemma_frag_rec_bits(img, w, h, ow, oh, oy, ox, w * h, p);
    lemma_frag_rec_bits(img, w, h, ow, oh, oy, ox - 1, w * h, p2);
    assert((ox - 1) * (w - ow) + (r + w - ow) == ox * (w - ow) + r) by (nonlinear_arith);
}

/// The text of one output line (without its newline): the glyphs of blocks
/// `0 .. ncols` of output row `oy`, in order.
pub open spec fn render_row<G: GlyphSet>(
    g: G,
    img: crate::image::ImageModel,
    oy: int,
    ncols: int,
) -> Seq<char>
    decreases ncols,
{
    if ncols <= 0 {
        Seq::empty()
    } else {
        render_row(g, img, oy, ncols - 1) + g.spec_glyph(
            spec_fragment(
                img,
                g.spec_mask_dims().0 as int,
                g.spec_mask_dims().1 as int,
                g.spec_mask_overlap().0 as int,
                g.spec_mask_overlap().1 as int,
                oy,
                ncols - 1,
            ) as Fragment,
        )
    }
}

/// The whole output text: `nrows` lines, each `ncols` glyphs followed by a
/// newline.
pub open spec fn render<G: GlyphSet>(
    g: G,
    img: crate::image::ImageModel,
    nrows: int,
    ncols: int,
) -> Seq<char>
    decreases nrows,
{
    if nrows <= 0 {
        Seq::empty()
    } else {
        render(g, img, nrows - 1, ncols) + render_row(g, img, nrows - 1, ncols) + seq!['\n']
    }
}

proof fn lemma_encode_utf8_concat(a: Seq<char>, b: Seq<char>)
    ensures
        vstd::utf8::encode_utf8(a + b) == vstd::utf8::encode_utf8(a) + vstd::utf8::encode_utf8(b),
    decreases a.len(),
{
    if a.len() == 0 {
        assert(a + b =~= b);
        assert(vstd::utf8::encode_utf8(a) + vstd::utf8::encode_utf8(b) =~= vstd::utf8::encode_utf8(
            b,
        ));
    } else {
        assert((a + b).drop_first() =~= a.drop_first() + b);
        lemma_encode_utf8_concat(a.drop_first(), b);
        assert(vstd::utf8::encode_utf8(a + b) =~= vstd::utf8::encode_utf8(a)
            + vstd::utf8::encode_utf8(b));
    }
}

proof fn lemma_render_row_byte_len<G: GlyphSet>(
    g: G,
    img: crate::image::ImageModel,
    oy: int,
    ncols: int,
    maxlen: int,
)
    requires
        g.inv(),
        maxlen >= 0,
        forall|f: Fragment|
            f < frag_count(g.spec_mask_dims().0, g.spec_mask_dims().1)
                ==> #[trigger] crate::glyphsets::glyph_byte_len(g.spec_glyph(f)) <= maxlen,
    ensures
        ncols >= 0 ==> vstd::utf8::encode_utf8(render_row(g, img, oy, ncols)).len() <= ncols
            * maxlen,
    decreases (if ncols >= 0 {
        ncols
    } else {
        0
    }),
{
    if ncols > 0 {
        lemma_render_row_byte_len(g, img, oy, ncols - 1, maxlen);
        let w = g.spec_mask_dims().0 as int;
        let h = g.spec_mask_dims().1 as int;
        let ow = g.spec_mask_overlap().0 as int;
        let oh = g.spec_mask_overlap().1 as int;
        g.lemma_inv_geom();
        lemma_frag_rec_bound(img, w, h, ow, oh, oy, ncols - 1, w * h);
        crate::bits::lemma_shl1_pow2((w * h) as u64);
        let f = spec_fragment(img, w, h, ow, oh, oy, ncols - 1) as Fragment;
        assert(f < frag_count(g.spec_mask_dims().0, g.spec_mask_dims().1));
        assert(crate::glyphsets::glyph_byte_len(g.spec_glyph(f)) <= maxlen);
        assert(render_row(g, img, oy, ncols) == render_row(g, img, oy, ncols - 1) + g.spec_glyph(
            f,
        ));
        lemma_encode_utf8_concat(render_row(g, img, oy, ncols - 1), g.spec_glyph(f));
        assert((ncols - 1) * maxlen + maxlen == ncols * maxlen) by (nonlinear_arith);
    }
}

/// The sizing helper's value is a true worst case: the UTF-8 byte length
/// of the rendered text never exceeds `(cols * max_glyph_len + 1) * rows`,
/// provided no glyph of the set is longer than its advertised maximum
/// (which [`IndexedGlyphSet::from_catalog`] guarantees).
pub proof fn lemma_render_byte_len<G: GlyphSet>(
    g: G,
    img: crate::image::ImageModel,
    nrows: int,
    ncols: int,
)
    requires
        g.inv(),
        nrows >= 0,
        ncols >= 0,
        forall|f: Fragment|
            f < frag_count(g.spec_mask_dims().0, g.spec_mask_dims().1)
                ==> #[trigger] crate::glyphsets::glyph_byte_len(g.spec_glyph(f))
                <= g.spec_max_glyph_len(),
    ensures
        vstd::utf8::encode_utf8(render(g, img, nrows, ncols)).len() <= (ncols
            * g.spec_max_glyph_len() + 1) * nrows,
    decreases nrows,
{
    let maxlen = g.spec_max_glyph_len() as int;
    if nrows > 0 {
        lemma_render_byte_len(g, img, nrows - 1, ncols);
        lemma_render_row_byte_len(g, img, nrows - 1, ncols, maxlen);
        let prefix = render(g, img, nrows - 1, ncols);
        let row = render_row(g, img, nrows - 1, ncols);
        lemma_encode_utf8_concat(prefix, row);
        lemma_encode_utf8_concat(prefix + row, seq!['\n']);
        assert(vstd::utf8::encode_utf8(seq!['\n']).len() == 1) by {
            assert(vstd::utf8::is_ascii_chars(seq!['\n']));
            vstd::utf8::is_ascii_chars_encode_utf8(seq!['\n']);
        }
        assert((ncols * maxlen + 1) * (nrows - 1) + (ncols * maxlen + 1) == (ncols * maxlen + 1)
            * nrows) by (nonlinear_arith);
    }
}

/// Block `k` of a line of `len` pixels covered by blocks of size `b`
/// overlapping by `ov` lies wholly inside the line.
pub proof fn lemma_blocks_fit(len: int, b: int, ov: int, k: int)
    requires
        0 <= ov < b,
        0 <= k,
        k < spec_num_cols(len, b, ov),
    ensures
        k * (b - ov) + b <= len,
        k * (b - ov) >= 0,
{
    let d = b - ov;
    vstd::arithmetic::mul::lemma_mul_nonnegative(k, d);
    if len >= ov {
        let q = (len - ov) / d;
        vstd::arithmetic::div_mod::lemma_fundamental_div_mod(len - ov, d);
        vstd::arithmetic::div_mod::lemma_mod_bound(len - ov, d);
        vstd::arithmetic::mul::lemma_mul_inequality(k, q - 1, d);
        assert((q - 1) * d == q * d - d) by (nonlinear_arith);
        assert(q * d == d * q) by (nonlinear_arith);
    }
}

/// The working area for bitmap-to-text conversion: per-row span buffers
/// that grow to fit the widest image scanned and are reused across calls.
#[derive(Debug)]
pub struct Bmp2text {
    row_group: Vec<Vec<Span>>,
}

impl Bmp2text {
    pub fn new() -> (r: Self) {
        Bmp2text { row_group: Vec::new() }
    }

    /// Renders the image as text, one glyph per block and one newline per
    /// block row, appending to `out`: the scanner streams the image rows,
    /// packs each `mask_dims` block (overlapping by `mask_overlap`) into an
    /// integer fragment, and appends that fragment's glyph.
    pub fn transform_and_write<I: crate::image::ImageRead, G: GlyphSet>(
        &mut self,
        image: &I,
        opts: &Bmp2textOpts<G>,
        out: &mut String,
    )
        requires
            opts.glyph_set.inv(),
        ensures
            final(out)@ == old(out)@ + render(
                opts.glyph_set,
                image.img(),
                spec_num_rows(
                    image.img().height as int,
                    opts.glyph_set.spec_mask_dims().1 as int,
                    opts.glyph_set.spec_mask_overlap().1 as int,
                ),
                spec_num_cols(
                    image.img().width as int,
                    opts.glyph_set.spec_mask_dims().0 as int,
                    opts.glyph_set.spec_mask_overlap().0 as int,
                ),
            ),
    {
        proof {
            opts.glyph_set.lemma_inv_geom();
        }
        let dims = opts.glyph_set.mask_dims();
        let overlap = opts.glyph_set.mask_overlap();
        let w = dims[0];
        let h = dims[1];
        let ow = overlap[0];
        let oh = overlap[1];
        proof {
            assert(w <= 9 && h <= 9) by (nonlinear_arith)
                requires
                    1 <= w,
                    1 <= h,
                    w * h <= 9,
            ;
        }
        let img_dims = image.dims();
        let img_w = img_dims[0];
        let img_h = img_dims[1];
        let num_spans = if img_w % 16 == 0 {
            img_w / 16
        } else {
            img_w / 16 + 1
        };
        proof {
            vstd::arithmetic::div_mod::lemma_fundamental_div_mod(img_w as int, 16);
            vstd::arithmetic::div_mod::lemma_mod_bound(img_w as int, 16);
            if img_w % 16 == 0 {
                vstd::arithmetic::div_mod::lemma_fundamental_div_mod_converse(
                    img_w as int + 15,
                    16,
                    (img_w / 16) as int,
                    15,
                );
            } else {
                vstd::arithmetic::div_mod::lemma_fundamental_div_mod_converse(
                    img_w as int + 15,
                    16,
                    (img_w / 16) as int + 1,
                    img_w as int % 16 - 1,
                );
            }
            assert(num_spans == crate::image::spec_spans_per_line(img_w as int));
        }
        let out_w = num_glyphs_for_image_width(img_w, opts);
        let out_h = num_lines_for_image_height(img_h, opts);

        // Grow the working area (never shrinking) to h rows of
        // num_spans + 1 spans each.
        proof {
            vstd::arithmetic::div_mod::lemma_div_is_ordered(
                img_w as int,
                usize::MAX as int,
                16,
            );
            assert(num_spans < usize::MAX);
        }
        while self.row_group.len() < h
            decreases h - self.row_group@.len(),
        {
            self.row_group.push(Vec::new());
        }
        let mut gi: usize = 0;
        while gi < h
            invariant
                num_spans < usize::MAX,
                gi <= h,
                self.row_group@.len() >= h,
                forall|i: int|
                    0 <= i < gi ==> (#[trigger] self.row_group@[i])@.len() >= num_spans + 1,
            decreases h - gi,
        {
            while self.row_group[gi].len() < num_spans + 1
                invariant
                    num_spans < usize::MAX,
                    gi < self.row_group@.len(),
                    self.row_group@.len() >= h,
                    forall|i: int|
                        0 <= i < gi ==> (#[trigger] self.row_group@[i])@.len() >= num_spans + 1,
                decreases num_spans + 1 - self.row_group@[gi as int]@.len(),
            {
                self.row_group[gi].push(0);
            }
            gi = gi + 1;
        }

        let ghost img = image.img();
        let ghost gset = opts.glyph_set;
        let mut out_y: usize = 0;
        while out_y < out_h
            invariant
                opts.glyph_set.inv(),
                gset == opts.glyph_set,
                img == image.img(),
                w == opts.glyph_set.spec_mask_dims().0,
                h == opts.glyph_set.spec_mask_dims().1,
                ow == opts.glyph_set.spec_mask_overlap().0,
                oh == opts.glyph_set.spec_mask_overlap().1,
                1 <= w && 1 <= h && ow < w && oh < h && w * h <= 9 && w <= 9 && h <= 9,
                img.wf(),
                img_w == img.width,
                img_h == img.height,
                num_spans == crate::image::spec_spans_per_line(img_w as int),
                out_w == spec_num_cols(img_w as int, w as int, ow as int),
                out_h == spec_num_rows(img_h as int, h as int, oh as int),
                out_y <= out_h,
                self.row_group@.len() >= h,
                forall|i: int|
                    0 <= i < h ==> (#[trigger] self.row_group@[i])@.len() >= num_spans + 1,
                out@ == old(out)@ + render(gset, img, out_y as int, out_w as int),
            decreases out_h - out_y,
        {
            proof {
                lemma_blocks_fit(img_h as int, h as int, oh as int, out_y as int);
            }
            let base_y = out_y * (h - oh);

            // Fetch the row group for this output line.
            let mut y2: usize = 0;
            while y2 < h
                invariant
                    img == image.img(),
                    img.wf(),
                    img_w == img.width,
                    img_h == img.height,
                    num_spans == crate::image::spec_spans_per_line(img_w as int),
                    1 <= h && h <= 9,
                    y2 <= h,
                    base_y + h <= img_h,
                    self.row_group@.len() >= h,
                    forall|i: int|
                        0 <= i < h ==> (#[trigger] self.row_group@[i])@.len() >= num_spans + 1,
                    forall|i: int, x: int|
                        0 <= i < y2 && 0 <= x < img_w ==> #[trigger] crate::bits::span_bit(
                            (self.row_group@[i])@,
                            x,
                        ) == img.pixel(base_y + i, x),
                decreases h - y2,
            {
                image.copy_line_as_spans_to(base_y + y2, &mut self.row_group[y2]);
                y2 = y2 + 1;
            }

            // Per-row sliding accumulators.
            let mut acc: Vec<u32> = Vec::new();
            let mut ai: usize = 0;
            while ai < h
                invariant
                    ai <= h,
                    acc@.len() == ai,
                    forall|i: int| 0 <= i < ai ==> acc@[i] == 0u32,
                decreases h - ai,
            {
                acc.push(0);
                ai = ai + 1;
            }
            let mut valid: usize = 0;
            let mut span_i: usize = 0;
            proof {
                assert forall|i: int| 0 <= i < h implies (acc@[i] as u64) < (1u64 << (0u64)) by {
                    assert(0u64 < (1u64 << 0u64)) by (bit_vector);
                }
            }

            let mut ox: usize = 0;
            while ox < out_w
                invariant
                    opts.glyph_set.inv(),
                    gset == opts.glyph_set,
                    img == image.img(),
                    w == opts.glyph_set.spec_mask_dims().0,
                    h == opts.glyph_set.spec_mask_dims().1,
                    ow == opts.glyph_set.spec_mask_overlap().0,
                    oh == opts.glyph_set.spec_mask_overlap().1,
                    1 <= w && 1 <= h && ow < w && oh < h && w * h <= 9 && w <= 9 && h <= 9,
                    img.wf(),
                    img_w == img.width,
                    img_h == img.height,
                    num_spans == crate::image::spec_spans_per_line(img_w as int),
                    out_w == spec_num_cols(img_w as int, w as int, ow as int),
                    out_h == spec_num_rows(img_h as int, h as int, oh as int),
                    out_y < out_h,
                    base_y == out_y * (h - oh),
                    base_y + h <= img_h,
                    self.row_group@.len() >= h,
                    forall|i: int|
                        0 <= i < h ==> (#[trigger] self.row_group@[i])@.len() >= num_spans + 1,
                    forall|i: int, x: int|
                        0 <= i < h && 0 <= x < img_w ==> #[trigger] crate::bits::span_bit(
                            (self.row_group@[i])@,
                            x,
                        ) == img.pixel(base_y + i, x),
                    ox <= out_w,
                    acc@.len() == h,
                    16 * (span_i as int) == valid + ox * (w as int - ow as int),
                    valid <= 31,
                    span_i <= num_spans,
                    forall|i: int|
                        0 <= i < h ==> ((#[trigger] acc@[i]) as u64) < (1u64 << (valid as u64)),
                    forall|i: int, j: u64|
                        0 <= i < h && j < valid && ox * (w as int - ow as int) + j < img_w
                            ==> #[trigger] crate::bits::bit64(((acc@[i]) as u64), j) == img.pixel(
                            base_y + i,
                            ox * (w as int - ow as int) + j,
                        ),
                    out@ == old(out)@ + render(gset, img, out_y as int, out_w as int) + render_row(
                        gset,
                        img,
                        out_y as int,
                        ox as int,
                    ),
                decreases out_w - ox,
            {
                let ghost consumed = ox * (w as int - ow as int);
                proof {
                    lemma_blocks_fit(img_w as int, w as int, ow as int, ox as int);
                }
                if valid < w {
                    proof {
                        assert(16 * (span_i as int) < img_w);
                        assert(img_w <= 16 * (num_spans as int));
                    }
                    let ghost off = valid;
                    let mut i3: usize = 0;
                    while i3 < h
                        invariant
                            img == image.img(),
                            img.wf(),
                            img_w == img.width,
                            1 <= w && 1 <= h && w <= 9 && h <= 9 && ow < w,
                            num_spans == crate::image::spec_spans_per_line(img_w as int),
                            i3 <= h,
                            base_y + h <= img_h,
                            img_h == img.height,
                            acc@.len() == h,
                            off == valid,
                            valid < w,
                            valid <= 15,
                            span_i < num_spans,
                            16 * (span_i as int) == valid + consumed,
                            consumed == ox * (w as int - ow as int),
                            consumed + w <= img_w,
                            consumed >= 0,
                            self.row_group@.len() >= h,
                            forall|i: int|
                                0 <= i < h ==> (#[trigger] self.row_group@[i])@.len() >= num_spans
                                    + 1,
                            forall|i: int, x: int|
                                0 <= i < h && 0 <= x < img_w ==> #[trigger] crate::bits::span_bit(
                                    (self.row_group@[i])@,
                                    x,
                                ) == img.pixel(base_y + i, x),
                            forall|i: int|
                                i3 <= i < h ==> ((#[trigger] acc@[i]) as u64) < (1u64 << (
                                valid as u64)),
                            forall|i: int, j: u64|
                                i3 <= i < h && j < valid && consumed + j < img_w
                                    ==> #[trigger] crate::bits::bit64(((acc@[i]) as u64), j)
                                    == img.pixel(base_y + i, consumed + j),
                            forall|i: int|
                                0 <= i < i3 ==> ((#[trigger] acc@[i]) as u64) < (1u64 << ((valid
                                    + 16) as u64)),
                            forall|i: int, j: u64|
                                0 <= i < i3 && j < valid + 16 && consumed + j < img_w
                                    ==> #[trigger] crate::bits::bit64(((acc@[i]) as u64), j)
                                    == img.pixel(base_y + i, consumed + j),
                        decreases h - i3,
                    {
                        let row = &self.row_group[i3];
                        let sp = row[span_i];
                        let a = acc[i3];
                        acc[i3] = a | ((sp as u32) << (valid as u32));
                        proof {
                            let na = acc@[i3 as int];
                            assert forall|j: u64| j < valid + 16 && consumed + j
                                < img_w implies #[trigger] crate::bits::bit64((na as u64), j)
                                == img.pixel(base_y + i3, consumed + j) by {
                                crate::bits::lemma_acc_refill(
                                    a,
                                    sp,
                                    off as u64,
                                    j,
                                    (if j >= off {
                                        (j - off) as u64
                                    } else {
                                        0u64
                                    }),
                                );
                                if j < off {
                                } else {
                                    let jj = (j - off) as u64;
                                    let x = consumed + j;
                                    vstd::arithmetic::div_mod::lemma_fundamental_div_mod_converse(
                                        x,
                                        16,
                                        span_i as int,
                                        jj as int,
                                    );
                                    assert(crate::bits::span_bit(row@, x) == crate::bits::bit64(
                                        sp as u64,
                                        jj,
                                    ));
                                }
                            }
                            assert forall|j: u64| j >= valid + 16 implies !(
                            #[trigger] crate::bits::bit64((na as u64), j)) by {
                                crate::bits::lemma_acc_refill(a, sp, off as u64, j, 0u64);
                            }
                            crate::bits::lemma_acc_refill(a, sp, off as u64, 0u64, 0u64);
                        }
                        i3 = i3 + 1;
                    }
                    span_i = span_i + 1;
                    valid = valid + 16;
                    proof {
                        assert forall|i: int| 0 <= i < h implies ((#[trigger] acc@[i]) as u64) < (
                        1u64 << (valid as u64)) by {
                        }
                    }
                }

                // Assemble the fragment for this block.
                let mut frag: u64 = 0;
                let ghost valid2 = valid - (w - ow);
                proof {
                    assert(1u64 << 0u64 == 1u64) by (bit_vector);
                }
                let mut i2: usize = 0;
                while i2 < h
                    invariant
                        img == image.img(),
                        img.wf(),
                        img_w == img.width,
                        img_h == img.height,
                        1 <= w && 1 <= h && w * h <= 9 && w <= 9 && h <= 9 && ow < w,
                        i2 <= h,
                        base_y + h <= img_h,
                        acc@.len() == h,
                        w <= valid,
                        valid <= 31,
                        valid2 == valid - (w as int - ow as int),
                        consumed == ox * (w as int - ow as int),
                        consumed + w <= img_w,
                        consumed >= 0,
                        frag < (1u64 << ((i2 * w) as u64)),
                        forall|idx: u64|
                            idx < i2 * w ==> crate::bits::bit64(frag, idx) == img.pixel(
                                base_y + (idx as int) / (w as int),
                                consumed + (idx as int) % (w as int),
                            ),
                        forall|i: int|
                            i2 <= i < h ==> ((#[trigger] acc@[i]) as u64) < (1u64 << (
                            valid as u64)),
                        forall|i: int, j: u64|
                            i2 <= i < h && j < valid && consumed + j < img_w
                                ==> #[trigger] crate::bits::bit64(((acc@[i]) as u64), j)
                                == img.pixel(base_y + i, consumed + j),
                        forall|i: int|
                            0 <= i < i2 ==> ((#[trigger] acc@[i]) as u64) < (1u64 << (
                            valid2 as u64)),
                        forall|i: int, j: u64|
                            0 <= i < i2 && j < valid2 && consumed + (w as int - ow as int) + j
                                < img_w ==> #[trigger] crate::bits::bit64(((acc@[i]) as u64), j)
                                == img.pixel(base_y + i, consumed + (w as int - ow as int) + j),
                    decreases h - i2,
                {
                    proof {
                        assert(i2 * w + w <= h * w && i2 * w >= 0) by (nonlinear_arith)
                            requires
                                0 <= i2,
                                i2 < h,
                                1 <= w,
                        ;
                        assert(h * w == w * h) by (nonlinear_arith);
                        assert((i2 + 1) * w == i2 * w + w) by (nonlinear_arith);
                        assert(1u64 << (w as u64) >= 1) by (bit_vector)
                            requires
                                (w as u64) <= 9,
                        ;
                    }
                    let a = acc[i2];
                    let sh = i2 * w;
                    let mask_w = (1u64 << (w as u64)) - 1;
                    let ghost oldfrag = frag;
                    frag = frag | (((a as u64) & mask_w) << (sh as u64));
                    acc[i2] = a >> ((w - ow) as u32);
                    proof {
                        crate::bits::lemma_frag_or(oldfrag, a, w as u64, sh as u64, 0u64, 0u64);
                        // fragment bits collected so far, plus this row's
                        assert forall|idx: u64| idx < (i2 + 1) * w implies crate::bits::bit64(
                            frag,
                            idx,
                        ) == img.pixel(
                            base_y + (idx as int) / (w as int),
                            consumed + (idx as int) % (w as int),
                        ) by {
                            if idx < sh {
                                crate::bits::lemma_frag_or(
                                    oldfrag,
                                    a,
                                    w as u64,
                                    sh as u64,
                                    idx,
                                    0u64,
                                );
                            } else {
                                let jj = (idx - sh) as u64;
                                crate::bits::lemma_frag_or(
                                    oldfrag,
                                    a,
                                    w as u64,
                                    sh as u64,
                                    idx,
                                    jj,
                                );
                                assert(jj < w);
                                assert(consumed + jj < img_w);
                                assert(crate::bits::bit64((a as u64), jj) == img.pixel(
                                    base_y + i2,
                                    consumed + jj,
                                ));
                                vstd::arithmetic::div_mod::lemma_fundamental_div_mod_converse(
                                    idx as int,
                                    w as int,
                                    i2 as int,
                                    jj as int,
                                );
                            }
                        }
                        // this row's accumulator slides by w - ow bits
                        let na = acc@[i2 as int];
                        assert forall|j: u64| j < valid2 && consumed + (w as int - ow as int) + j
                            < img_w implies #[trigger] crate::bits::bit64((na as u64), j)
                            == img.pixel(base_y + i2, consumed + (w as int - ow as int) + j) by {
                            crate::bits::lemma_acc_shift(
                                a,
                                (w - ow) as u64,
                                valid as u64,
                                j,
                            );
                        }
                        crate::bits::lemma_acc_shift(a, (w - ow) as u64, valid as u64, 0u64);
                    }
                    i2 = i2 + 1;
                }
                valid = valid - (w - ow);

                // The assembled fragment is the block's fragment value.
                let ghost sf = spec_fragment(
                    img,
                    w as int,
                    h as int,
                    ow as int,
                    oh as int,
                    out_y as int,
                    ox as int,
                );
                proof {
                    assert(h * w == w * h) by (nonlinear_arith);
                    lemma_frag_rec_bound(
                        img,
                        w as int,
                        h as int,
                        ow as int,
                        oh as int,
                        out_y as int,
                        ox as int,
                        (w * h) as int,
                    );
                    assert forall|j: u64| j < (w * h) as u64 implies crate::bits::bit64(
                        (sf as u64),
                        j,
                    ) == crate::bits::bit64(frag, j) by {
                        lemma_frag_rec_bits(
                            img,
                            w as int,
                            h as int,
                            ow as int,
                            oh as int,
                            out_y as int,
                            ox as int,
                            (w * h) as int,
                            j,
                        );
                    }
                    crate::bits::lemma_bits_eq(frag, sf as u64, (w * h) as u64);
                    crate::bits::lemma_shl1_pow2((w * h) as u64);
                }
                let glyph = opts.glyph_set.fragment_to_glyph(frag);
                out.append(glyph);
                proof {
                    assert(render_row(gset, img, out_y as int, ox as int + 1) == render_row(
                        gset,
                        img,
                        out_y as int,
                        ox as int,
                    ) + gset.spec_glyph(sf as Fragment));
                    assert((ox as int + 1) * (w as int - ow as int) == ox * (w as int - ow as int)
                        + (w as int - ow as int)) by (nonlinear_arith);
                }
                ox = ox + 1;
            }
            out.append("\n");
            proof {
                reveal_strlit("\n");
                assert("\n"@ =~= seq!['\n']);
                assert(render(gset, img, out_y as int + 1, out_w as int) =~= render(
                    gset,
                    img,
                    out_y as int,
                    out_w as int,
                ) + render_row(gset, img, out_y as int, out_w as int) + seq!['\n']);
            }
            out_y = out_y + 1;
        }
    }
}

/// Calculate the maximum number of bytes possibly outputted by
/// [`Bmp2text::transform_and_write`]: `columns * max_glyph_len + 1` bytes per
/// line (the 1 is the newline), times the number of lines, with every step
/// checked; any overflow yields `None`, never a wrapped number.
pub fn max_output_len_for_image_dims<G: GlyphSet>(dims: [usize; 2], opts: &Bmp2textOpts<G>) -> (r:
    Option<usize>)
    requires
        opts.glyph_set.inv(),
    ensures
        ({
            let cols = spec_num_cols(
                dims[0] as int,
                opts.glyph_set.spec_mask_dims().0 as int,
                opts.glyph_set.spec_mask_overlap().0 as int,
            );
            let rows = spec_num_rows(
                dims[1] as int,
                opts.glyph_set.spec_mask_dims().1 as int,
                opts.glyph_set.spec_mask_overlap().1 as int,
            );
            let per_line = cols * opts.glyph_set.spec_max_glyph_len() + 1;
            &&& (r is Some <==> per_line <= usize::MAX && per_line * rows <= usize::MAX)
            &&& (r is Some ==> r->Some_0 == per_line * rows)
            &&& (per_line * rows > usize::MAX ==> r is None)
        }),
{
    let cols = num_glyphs_for_image_width(dims[0], opts);
    let rows = num_lines_for_image_height(dims[1], opts);
    let max_glyph_len = opts.glyph_set.max_glyph_len();
    proof {
        opts.glyph_set.lemma_inv_geom();
        let cols_s = spec_num_cols(
            dims[0] as int,
            opts.glyph_set.spec_mask_dims().0 as int,
            opts.glyph_set.spec_mask_overlap().0 as int,
        );
        let rows_s = spec_num_rows(
            dims[1] as int,
            opts.glyph_set.spec_mask_dims().1 as int,
            opts.glyph_set.spec_mask_overlap().1 as int,
        );
        assert(cols_s >= 0 && rows_s >= 0);
    }
    match cols.checked_mul(max_glyph_len) {
        Some(x) => match x.checked_add(1) {
            Some(per_line) => per_line.checked_mul(rows),
            None => None,
        },
        None => None,
    }
}

} // verus!
