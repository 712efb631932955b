//! Scanner behavior: end-to-end rendering, overlap bookkeeping and the
//! output-sizing helpers.
use img2text::{
    glyph_set_braille8, glyph_set_ms_2x3, glyph_set_slc, max_output_len_for_image_dims,
    num_glyphs_for_image_width, num_lines_for_image_height, BitImage, Bmp2text, Bmp2textOpts,
    CatalogEntry, GlyphSet, ImageRead, IndexedGlyphSet,
};

fn entry(glyph: &str, pattern: u64) -> CatalogEntry {
    CatalogEntry {
        glyph: glyph.to_owned(),
        pattern,
    }
}

#[test]
fn end_to_end() {
    // a solid 3x3 foreground block through a catalog mapping the full
    // pattern to a full block renders exactly one glyph and one newline
    let entries = vec![entry("█", 0b111_111_111)];
    let gs = IndexedGlyphSet::from_catalog([3, 3], [0, 0], &entries);
    let opts = Bmp2textOpts { glyph_set: gs };
    let image = BitImage::from_pixels(3, 3, &vec![true; 9]);
    let mut out = String::new();
    Bmp2text::new().transform_and_write(&image, &opts, &mut out);
    assert_eq!(out, "█\n");
}

#[test]
fn overlap_columns_formula() {
    // mask [2,3], overlap [1,1]: columns(width) == (width - 1) / (2 - 1)
    let opts = Bmp2textOpts {
        glyph_set: glyph_set_ms_2x3(),
    };
    for width in 0..40usize {
        let expect = if width >= 1 { (width - 1) / (2 - 1) } else { 0 };
        assert_eq!(num_glyphs_for_image_width(width, &opts), expect);
    }
    assert_eq!(num_lines_for_image_height(3, &opts), 1);
    assert_eq!(num_lines_for_image_height(5, &opts), 2);
}

#[test]
fn overlap_shares_pixels() {
    // two horizontally adjacent blocks read the shared pixel column
    // identically: with only the middle column lit, the left block shows a
    // right half and the right block a left half
    let opts = Bmp2textOpts {
        glyph_set: glyph_set_ms_2x3(),
    };
    let mut pixels = vec![false; 9];
    for row in 0..3 {
        pixels[row * 3 + 1] = true;
    }
    let image = BitImage::from_pixels(3, 3, &pixels);
    let mut out = String::new();
    Bmp2text::new().transform_and_write(&image, &opts, &mut out);
    assert_eq!(out, "▐▌\n");
}

#[test]
fn multi_row_output() {
    let entries = vec![entry("#", 0b1), entry(".", 0b0)];
    let gs = IndexedGlyphSet::from_catalog([1, 1], [0, 0], &entries);
    let opts = Bmp2textOpts { glyph_set: gs };
    let pixels = vec![true, false, false, true];
    let image = BitImage::from_pixels(2, 2, &pixels);
    let mut out = String::new();
    Bmp2text::new().transform_and_write(&image, &opts, &mut out);
    assert_eq!(out, "#.\n.#\n");
}

#[test]
fn wide_image_crosses_spans() {
    // 40 pixels per row exercises the span refill path (spans hold 16)
    let entries = vec![entry("#", 0b1), entry(".", 0b0)];
    let gs = IndexedGlyphSet::from_catalog([1, 1], [0, 0], &entries);
    let opts = Bmp2textOpts { glyph_set: gs };
    let mut pixels = vec![false; 40];
    pixels[0] = true;
    pixels[17] = true;
    pixels[39] = true;
    let image = BitImage::from_pixels(40, 1, &pixels);
    let mut out = String::new();
    Bmp2text::new().transform_and_write(&image, &opts, &mut out);
    let mut expect = String::new();
    for x in 0..40 {
        expect.push(if x == 0 || x == 17 || x == 39 { '#' } else { '.' });
    }
    expect.push('\n');
    assert_eq!(out, expect);
}

#[test]
fn default_opts_render() {
    // the default glyph set consumes 3x3 blocks
    let opts = Bmp2textOpts::new();
    let image = BitImage::from_pixels(9, 3, &vec![false; 27]);
    let mut out = String::new();
    Bmp2text::new().transform_and_write(&image, &opts, &mut out);
    assert_eq!(out, "   \n");
}

#[test]
fn sizing_exact() {
    let opts = Bmp2textOpts {
        glyph_set: glyph_set_slc(),
    };
    // 3 columns, 3 rows; the widest glyph is 4 bytes, plus one per newline
    assert_eq!(
        max_output_len_for_image_dims([9, 9], &opts),
        Some((3 * 4 + 1) * 3)
    );
    let braille = Bmp2textOpts {
        glyph_set: glyph_set_braille8(),
    };
    assert_eq!(braille.glyph_set.max_glyph_len(), 3);
    assert_eq!(
        max_output_len_for_image_dims([4, 8], &braille),
        Some((2 * 3 + 1) * 2)
    );
}

#[test]
fn sizing_overflow_is_none() {
    // when the true byte count exceeds the representable range the sizing
    // helper reports no value rather than a wrapped number
    let opts = Bmp2textOpts {
        glyph_set: glyph_set_slc(),
    };
    assert_eq!(
        max_output_len_for_image_dims([usize::MAX, usize::MAX], &opts),
        None
    );
    assert_eq!(
        max_output_len_for_image_dims([usize::MAX, 3], &opts),
        None
    );
}

#[test]
fn image_round_trip() {
    // the packed image hands back exactly the pixels it was built from
    let pixels: Vec<bool> = (0..50).map(|i| i % 3 == 0).collect();
    let image = BitImage::from_pixels(25, 2, &pixels);
    assert_eq!(image.dims(), [25, 2]);
    let mut spans = vec![0u16; 2];
    for y in 0..2 {
        image.copy_line_as_spans_to(y, &mut spans);
        for x in 0..25 {
            let bit = (spans[x / 16] >> (x % 16)) & 1 == 1;
            assert_eq!(bit, pixels[y * 25 + x]);
        }
    }
}

#[test]
fn spans_by_fn_packs_bits() {
    let mut spans = vec![0xFFFFu16; 4];
    img2text::set_spans_by_fn(&mut spans, 20, |x| x % 5 == 0);
    for x in 0..20 {
        let bit = (spans[x / 16] >> (x % 16)) & 1 == 1;
        assert_eq!(bit, x % 5 == 0);
    }
    // bits of the partial span beyond the pixels are cleared
    for x in 20..32 {
        assert_eq!((spans[x / 16] >> (x % 16)) & 1, 0);
    }
    // spans wholly beyond the pixels stay untouched
    assert_eq!(spans[2], 0xFFFF);
    assert_eq!(spans[3], 0xFFFF);
}

#[test]
fn overlap_rows_advance() {
    // mask [2,3] with overlap [1,1]: a 5-pixel-tall image yields two block
    // rows whose row groups share one pixel row
    let opts = Bmp2textOpts {
        glyph_set: glyph_set_ms_2x3(),
    };
    let image = BitImage::from_pixels(3, 5, &vec![true; 15]);
    let mut out = String::new();
    Bmp2text::new().transform_and_write(&image, &opts, &mut out);
    assert_eq!(out, "██\n██\n");
}
