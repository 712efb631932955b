//! Glyph-set behavior: the closed-form dot-pattern remap, totality of the
//! built tables, exact-match fidelity and duplicate precedence.
use img2text::{
    build_index, glyph_set_braille8, glyph_set_slc, CatalogEntry, GlyphSet, IndexedGlyphSet,
};

#[test]
fn braille8() {
    let gs = glyph_set_braille8();
    assert_eq!(gs.fragment_to_glyph(0), "\u{2800}");
    assert_eq!(gs.fragment_to_glyph(0b10_01_01_01), "\u{2887}");
    assert_eq!(gs.fragment_to_glyph(0b11_11_11_11), "\u{28FF}");
}

#[test]
fn braille8_total_nonempty() {
    let gs = glyph_set_braille8();
    for fragment in 0..256u64 {
        let glyph = gs.fragment_to_glyph(fragment);
        assert!(!glyph.is_empty());
        assert!(glyph.chars().count() == 1);
    }
}

#[test]
fn braille8_geometry() {
    let gs = glyph_set_braille8();
    assert_eq!(gs.mask_dims(), [2, 4]);
    assert_eq!(gs.mask_overlap(), [0, 0]);
    assert_eq!(gs.max_glyph_len(), 3);
}

#[test]
fn slc_total_nonempty() {
    let gs = glyph_set_slc();
    assert_eq!(gs.mask_dims(), [3, 3]);
    assert_eq!(gs.mask_overlap(), [0, 0]);
    for fragment in 0..512u64 {
        assert!(!gs.fragment_to_glyph(fragment).is_empty());
    }
}

#[test]
fn slc_exact_patterns() {
    let gs = glyph_set_slc();
    // patterns are written in visual order; an all-ones or all-zeros block
    // is its own decoding
    assert_eq!(gs.fragment_to_glyph(0b111_111_111), "█");
    assert_eq!(gs.fragment_to_glyph(0b000_000_000), " ");
}

fn entry(glyph: &str, pattern: u64) -> CatalogEntry {
    CatalogEntry {
        glyph: glyph.to_owned(),
        pattern,
    }
}

#[test]
fn exact_match_fidelity() {
    // a catalog pattern resolves to its glyph verbatim, untouched by either
    // mutation phase
    let entries = vec![entry("#", 0b11_11), entry(".", 0b00_00), entry("L", 0b10_10)];
    let gs = IndexedGlyphSet::from_catalog([2, 2], [0, 0], &entries);
    assert_eq!(gs.fragment_to_glyph(0b1111), "#");
    assert_eq!(gs.fragment_to_glyph(0b0000), ".");
    // visual 10_10 decodes to bits 0 and 2 set
    assert_eq!(gs.fragment_to_glyph(0b0101), "L");
}

#[test]
fn duplicate_precedence() {
    // two catalog entries sharing a pattern resolve to the earlier-listed
    // glyph
    let entries = vec![entry("x", 0b1), entry("first", 0b0), entry("second", 0b0)];
    let gs = IndexedGlyphSet::from_catalog([1, 1], [0, 0], &entries);
    assert_eq!(gs.fragment_to_glyph(0), "first");
    assert_eq!(gs.fragment_to_glyph(1), "x");
}

#[test]
fn builder_distances() {
    // the seeded pattern keeps distance 0; the value reached by one
    // unrestricted flip is one step deeper and inherits the glyph
    let entries = vec![entry("@", 0b1)];
    let index = build_index(1, 1, &entries);
    assert_eq!(index.len(), 2);
    let seeded = index[1].unwrap();
    assert_eq!(seeded.glyph_i, 0);
    assert_eq!(seeded.distance, 0);
    let derived = index[0].unwrap();
    assert_eq!(derived.glyph_i, 0);
    assert_eq!(derived.distance, 1);
}

#[test]
fn builder_dilation_bias() {
    // with a single lit pixel seeded, its dilations (zero bits next to a
    // foreground bit) are covered at distance 1 by phase A
    let entries = vec![entry("o", 0b10_00), entry("-", 0b00_00)];
    let index = build_index(2, 2, &entries);
    // visual 10_00: only the top-left pixel, which is bit 0
    let seeded = index[0b0001].unwrap();
    assert_eq!((seeded.glyph_i, seeded.distance), (0, 0));
    // its orthogonal dilations: set bit 1 (right) or bit 2 (below)
    let right = index[0b0011].unwrap();
    assert_eq!((right.glyph_i, right.distance), (0, 1));
    let below = index[0b0101].unwrap();
    assert_eq!((below.glyph_i, below.distance), (0, 1));
    // every slot is filled
    for v in 0..16 {
        assert!(index[v].is_some());
    }
}
