//! The compiled-in glyph catalogs: for each named glyph set, the ordered
//! list of (glyph text, exact bit pattern) pairs its dense lookup table is
//! built from, both as executable data and as a specification-level
//! sequence the constructors' contracts are stated against. Patterns are
//! written in visual order (most significant bit = top-left pixel); order
//! breaks ties between entries sharing a pattern.
//!
//! The larger catalogs are appended in pieces so that each function's
//! proof that it built its piece of the catalog stays small.
use vstd::prelude::*;

use crate::glyphsets::{
    catalog_max_len, catalog_view, first_with_pattern, glyph_byte_len, in_catalog,
    lemma_char_byte_len, lemma_first_view, GlyphPattern, GlyphSet, IndexedGlyphSet,
};
use crate::index::{
    decode_spec, lemma_decode_all_ones, lemma_decode_zero, CatalogEntry,
};
use crate::Fragment;

verus! {

/// Appends one catalog line, keeping every glyph nonempty and extending
/// the catalog's specification view and running maximum byte length.
fn push_entry(entries: &mut Vec<CatalogEntry>, glyph: &str, pattern: u64)
    requires
        glyph@.len() >= 1,
        forall|j: int|
            0 <= j < old(entries)@.len() ==> (#[trigger] old(entries)@[j].glyph)@.len() >= 1,
    ensures
        final(entries)@.len() == old(entries)@.len() + 1,
        forall|j: int|
            0 <= j < final(entries)@.len() ==> (#[trigger] final(entries)@[j].glyph)@.len() >= 1,
        catalog_view(final(entries)@) == catalog_view(old(entries)@).push(
            (GlyphPattern { glyph: glyph@, pattern: pattern }),
        ),
        catalog_max_len(final(entries)@) == (if glyph_byte_len(glyph@) > catalog_max_len(
            old(entries)@,
        ) {
            glyph_byte_len(glyph@)
        } else {
            catalog_max_len(old(entries)@)
        }),
{
    entries.push(CatalogEntry { glyph: glyph.to_owned(), pattern });
    proof {
        assert(entries@.drop_last() =~= old(entries)@);
        assert(entries@.last().glyph@ == glyph@);
        assert(catalog_view(entries@) =~= catalog_view(old(entries)@).push(
            (GlyphPattern { glyph: glyph@, pattern: pattern }),
        ));
    }
}

/// One piece of the slc catalog, as appended by its builder.
pub open spec fn slc_catalog_0() -> Seq<GlyphPattern> {
    seq![
        GlyphPattern { glyph: " "@, pattern: 0b000_000_000 },
        GlyphPattern { glyph: "╋"@, pattern: 0b010_111_010 },
        GlyphPattern { glyph: "🬃"@, pattern: 0b000_110_000 },
        GlyphPattern { glyph: "🬃"@, pattern: 0b000_100_000 },
        GlyphPattern { glyph: "╹"@, pattern: 0b010_010_000 },
        GlyphPattern { glyph: "🬇"@, pattern: 0b000_011_000 },
        GlyphPattern { glyph: "🬇"@, pattern: 0b000_001_000 },
        GlyphPattern { glyph: "╻"@, pattern: 0b000_010_010 },
        GlyphPattern { glyph: "█"@, pattern: 0b111_111_111 },
        GlyphPattern { glyph: "▋"@, pattern: 0b110_110_110 },
        GlyphPattern { glyph: "▍"@, pattern: 0b100_100_100 },
        GlyphPattern { glyph: "🬀"@, pattern: 0b110_000_000 },
        GlyphPattern { glyph: "🬁"@, pattern: 0b011_000_000 },
        GlyphPattern { glyph: "🬂"@, pattern: 0b111_000_000 },
        GlyphPattern { glyph: "🬋"@, pattern: 0b000_111_000 },
        GlyphPattern { glyph: "🬎"@, pattern: 0b111_111_000 },
    ]
}

/// One piece of the slc catalog, as appended by its builder.
pub open spec fn slc_catalog_1() -> Seq<GlyphPattern> {
    seq![
        GlyphPattern { glyph: "🬏"@, pattern: 0b000_000_110 },
        GlyphPattern { glyph: "🬞"@, pattern: 0b000_000_011 },
        GlyphPattern { glyph: "🬭"@, pattern: 0b000_000_111 },
        GlyphPattern { glyph: "🬰"@, pattern: 0b111_000_111 },
        GlyphPattern { glyph: "🬹"@, pattern: 0b000_111_111 },
        GlyphPattern { glyph: "🬼"@, pattern: 0b000_000_100 },
        GlyphPattern { glyph: "🬾"@, pattern: 0b000_100_100 },
        GlyphPattern { glyph: "🬿"@, pattern: 0b000_100_111 },
        GlyphPattern { glyph: "🬿"@, pattern: 0b000_110_111 },
        GlyphPattern { glyph: "🭀"@, pattern: 0b100_100_110 },
        GlyphPattern { glyph: "🭀"@, pattern: 0b100_110_110 },
        GlyphPattern { glyph: "🭁"@, pattern: 0b011_111_111 },
        GlyphPattern { glyph: "🭂"@, pattern: 0b001_111_111 },
        GlyphPattern { glyph: "🭄"@, pattern: 0b001_011_111 },
        GlyphPattern { glyph: "🭅"@, pattern: 0b011_011_111 },
        GlyphPattern { glyph: "🭆"@, pattern: 0b000_001_111 },
    ]
}

/// One piece of the slc catalog, as appended by its builder.
pub open spec fn slc_catalog_2() -> Seq<GlyphPattern> {
    seq![
        GlyphPattern { glyph: "🭆"@, pattern: 0b000_011_111 },
        GlyphPattern { glyph: "🭇"@, pattern: 0b000_000_001 },
        GlyphPattern { glyph: "🭉"@, pattern: 0b000_001_001 },
        GlyphPattern { glyph: "🭌"@, pattern: 0b110_111_111 },
        GlyphPattern { glyph: "🭍"@, pattern: 0b100_111_111 },
        GlyphPattern { glyph: "🭐"@, pattern: 0b110_110_111 },
        GlyphPattern { glyph: "🭒"@, pattern: 0b111_111_011 },
        GlyphPattern { glyph: "🭕"@, pattern: 0b111_011_001 },
        GlyphPattern { glyph: "🭖"@, pattern: 0b111_011_011 },
        GlyphPattern { glyph: "🭗"@, pattern: 0b100_000_000 },
        GlyphPattern { glyph: "🭙"@, pattern: 0b100_100_000 },
        GlyphPattern { glyph: "🭜"@, pattern: 0b111_100_000 },
        GlyphPattern { glyph: "🭜"@, pattern: 0b111_110_000 },
        GlyphPattern { glyph: "🭝"@, pattern: 0b111_111_110 },
        GlyphPattern { glyph: "🭞"@, pattern: 0b111_111_100 },
        GlyphPattern { glyph: "🭠"@, pattern: 0b111_110_100 },
    ]
}

/// One piece of the slc catalog, as appended by its builder.
pub open spec fn slc_catalog_3() -> Seq<GlyphPattern> {
    seq![
        GlyphPattern { glyph: "🭡"@, pattern: 0b111_110_110 },
        GlyphPattern { glyph: "🭢"@, pattern: 0b001_000_000 },
        GlyphPattern { glyph: "🭤"@, pattern: 0b001_001_000 },
        GlyphPattern { glyph: "🭧"@, pattern: 0b111_001_000 },
        GlyphPattern { glyph: "🭧"@, pattern: 0b111_011_000 },
        GlyphPattern { glyph: "🭨"@, pattern: 0b111_011_111 },
        GlyphPattern { glyph: "🭩"@, pattern: 0b101_111_111 },
        GlyphPattern { glyph: "🭪"@, pattern: 0b111_110_111 },
        GlyphPattern { glyph: "🭫"@, pattern: 0b111_111_101 },
        GlyphPattern { glyph: "🭬"@, pattern: 0b100_110_100 },
        GlyphPattern { glyph: "🭭"@, pattern: 0b111_010_000 },
        GlyphPattern { glyph: "🭮"@, pattern: 0b001_011_001 },
        GlyphPattern { glyph: "🭯"@, pattern: 0b000_010_111 },
        GlyphPattern { glyph: "🮚"@, pattern: 0b111_010_111 },
        GlyphPattern { glyph: "🮛"@, pattern: 0b101_111_101 },
        GlyphPattern { glyph: "🭲"@, pattern: 0b010_010_010 },
    ]
}

/// One piece of the slc catalog, as appended by its builder.
pub open spec fn slc_catalog_4() -> Seq<GlyphPattern> {
    seq![
        GlyphPattern { glyph: "🮇"@, pattern: 0b001_001_001 },
        GlyphPattern { glyph: "🮉"@, pattern: 0b011_011_011 },
    ]
}

/// The slc catalog at the specification level.
pub open spec fn slc_catalog() -> Seq<GlyphPattern> {
    slc_catalog_0() + slc_catalog_1() + slc_catalog_2() + slc_catalog_3() + slc_catalog_4()
}

/// One piece of the ms 2x3 catalog, as appended by its builder.
pub open spec fn ms_2x3_catalog_0() -> Seq<GlyphPattern> {
    seq![
        GlyphPattern { glyph: " "@, pattern: 0b00_00_00 },
        GlyphPattern { glyph: "█"@, pattern: 0b11_11_11 },
        GlyphPattern { glyph: "🬂"@, pattern: 0b11_00_00 },
        GlyphPattern { glyph: "🬋"@, pattern: 0b00_11_00 },
        GlyphPattern { glyph: "🬎"@, pattern: 0b11_11_00 },
        GlyphPattern { glyph: "🬭"@, pattern: 0b00_00_11 },
        GlyphPattern { glyph: "🬰"@, pattern: 0b11_00_11 },
        GlyphPattern { glyph: "🬹"@, pattern: 0b00_11_11 },
        GlyphPattern { glyph: "🭁"@, pattern: 0b01_11_11 },
        GlyphPattern { glyph: "🭃"@, pattern: 0b01_01_11 },
        GlyphPattern { glyph: "🭆"@, pattern: 0b00_01_11 },
        GlyphPattern { glyph: "🭇"@, pattern: 0b00_00_01 },
        GlyphPattern { glyph: "🭉"@, pattern: 0b00_01_01 },
        GlyphPattern { glyph: "🬼"@, pattern: 0b00_00_10 },
        GlyphPattern { glyph: "🭌"@, pattern: 0b10_11_11 },
        GlyphPattern { glyph: "🭎"@, pattern: 0b10_10_11 },
    ]
}

/// One piece of the ms 2x3 catalog, as appended by its builder.
pub open spec fn ms_2x3_catalog_1() -> Seq<GlyphPattern> {
    seq![
        GlyphPattern { glyph: "🭑"@, pattern: 0b00_10_11 },
        GlyphPattern { glyph: "🬾"@, pattern: 0b00_10_10 },
        GlyphPattern { glyph: "🭗"@, pattern: 0b10_00_00 },
        GlyphPattern { glyph: "🭙"@, pattern: 0b10_10_00 },
        GlyphPattern { glyph: "🭜"@, pattern: 0b11_10_00 },
        GlyphPattern { glyph: "🭟"@, pattern: 0b11_10_10 },
        GlyphPattern { glyph: "🭝"@, pattern: 0b11_11_10 },
        GlyphPattern { glyph: "🭢"@, pattern: 0b01_00_00 },
        GlyphPattern { glyph: "🭤"@, pattern: 0b01_01_00 },
        GlyphPattern { glyph: "🭧"@, pattern: 0b11_01_00 },
        GlyphPattern { glyph: "🭔"@, pattern: 0b11_01_01 },
        GlyphPattern { glyph: "🭒"@, pattern: 0b11_11_01 },
        GlyphPattern { glyph: "▌"@, pattern: 0b10_10_10 },
        GlyphPattern { glyph: "▐"@, pattern: 0b01_01_01 },
        GlyphPattern { glyph: "🬀"@, pattern: 0b10_00_00 },
        GlyphPattern { glyph: "🬁"@, pattern: 0b01_00_00 },
    ]
}

/// One piece of the ms 2x3 catalog, as appended by its builder.
pub open spec fn ms_2x3_catalog_2() -> Seq<GlyphPattern> {
    seq![
        GlyphPattern { glyph: "🬂"@, pattern: 0b11_00_00 },
        GlyphPattern { glyph: "🬃"@, pattern: 0b00_10_00 },
        GlyphPattern { glyph: "🬄"@, pattern: 0b10_10_00 },
        GlyphPattern { glyph: "🬅"@, pattern: 0b01_10_00 },
        GlyphPattern { glyph: "🬆"@, pattern: 0b11_10_00 },
        GlyphPattern { glyph: "🬇"@, pattern: 0b00_01_00 },
        GlyphPattern { glyph: "🬈"@, pattern: 0b10_01_00 },
        GlyphPattern { glyph: "🬉"@, pattern: 0b01_01_00 },
        GlyphPattern { glyph: "🬊"@, pattern: 0b11_01_00 },
        GlyphPattern { glyph: "🬋"@, pattern: 0b00_11_00 },
        GlyphPattern { glyph: "🬌"@, pattern: 0b10_11_00 },
        GlyphPattern { glyph: "🬍"@, pattern: 0b01_11_00 },
        GlyphPattern { glyph: "🬎"@, pattern: 0b11_11_00 },
        GlyphPattern { glyph: "🬏"@, pattern: 0b00_00_10 },
        GlyphPattern { glyph: "🬐"@, pattern: 0b10_00_10 },
        GlyphPattern { glyph: "🬑"@, pattern: 0b01_00_10 },
    ]
}

/// One piece of the ms 2x3 catalog, as appended by its builder.
pub open spec fn ms_2x3_catalog_3() -> Seq<GlyphPattern> {
    seq![
        GlyphPattern { glyph: "🬒"@, pattern: 0b11_00_10 },
        GlyphPattern { glyph: "🬓"@, pattern: 0b00_10_10 },
        GlyphPattern { glyph: "▌"@, pattern: 0b10_10_10 },
        GlyphPattern { glyph: "🬔"@, pattern: 0b01_10_10 },
        GlyphPattern { glyph: "🬕"@, pattern: 0b11_10_10 },
        GlyphPattern { glyph: "🬖"@, pattern: 0b00_01_10 },
        GlyphPattern { glyph: "🬗"@, pattern: 0b10_01_10 },
        GlyphPattern { glyph: "🬘"@, pattern: 0b01_01_10 },
        GlyphPattern { glyph: "🬙"@, pattern: 0b11_01_10 },
        GlyphPattern { glyph: "🬚"@, pattern: 0b00_11_10 },
        GlyphPattern { glyph: "🬛"@, pattern: 0b10_11_10 },
        GlyphPattern { glyph: "🬜"@, pattern: 0b01_11_10 },
        GlyphPattern { glyph: "🬝"@, pattern: 0b11_11_10 },
        GlyphPattern { glyph: "🬞"@, pattern: 0b00_00_01 },
        GlyphPattern { glyph: "🬟"@, pattern: 0b10_00_01 },
        GlyphPattern { glyph: "🬠"@, pattern: 0b01_00_01 },
    ]
}

/// One piece of the ms 2x3 catalog, as appended by its builder.
pub open spec fn ms_2x3_catalog_4() -> Seq<GlyphPattern> {
    seq![
        GlyphPattern { glyph: "🬡"@, pattern: 0b11_00_01 },
        GlyphPattern { glyph: "🬢"@, pattern: 0b00_10_01 },
        GlyphPattern { glyph: "🬣"@, pattern: 0b10_10_01 },
        GlyphPattern { glyph: "🬤"@, pattern: 0b01_10_01 },
        GlyphPattern { glyph: "🬥"@, pattern: 0b11_10_01 },
        GlyphPattern { glyph: "🬦"@, pattern: 0b00_01_01 },
        GlyphPattern { glyph: "▐"@, pattern: 0b01_01_01 },
        GlyphPattern { glyph: "🬧"@, pattern: 0b10_01_01 },
        GlyphPattern { glyph: "🬨"@, pattern: 0b11_01_01 },
        GlyphPattern { glyph: "🬩"@, pattern: 0b00_11_01 },
        GlyphPattern { glyph: "🬪"@, pattern: 0b10_11_01 },
        GlyphPattern { glyph: "🬫"@, pattern: 0b01_11_01 },
        GlyphPattern { glyph: "🬬"@, pattern: 0b11_11_01 },
        GlyphPattern { glyph: "🬭"@, pattern: 0b00_00_11 },
        GlyphPattern { glyph: "🬮"@, pattern: 0b10_00_11 },
        GlyphPattern { glyph: "🬯"@, pattern: 0b01_00_11 },
    ]
}

/// One piece of the ms 2x3 catalog, as appended by its builder.
pub open spec fn ms_2x3_catalog_5() -> Seq<GlyphPattern> {
    seq![
        GlyphPattern { glyph: "🬰"@, pattern: 0b11_00_11 },
        GlyphPattern { glyph: "🬱"@, pattern: 0b00_10_11 },
        GlyphPattern { glyph: "🬲"@, pattern: 0b10_10_11 },
        GlyphPattern { glyph: "🬳"@, pattern: 0b01_10_11 },
        GlyphPattern { glyph: "🬴"@, pattern: 0b11_10_11 },
        GlyphPattern { glyph: "🬵"@, pattern: 0b00_01_11 },
        GlyphPattern { glyph: "🬶"@, pattern: 0b10_01_11 },
        GlyphPattern { glyph: "🬷"@, pattern: 0b01_01_11 },
        GlyphPattern { glyph: "🬸"@, pattern: 0b11_01_11 },
        GlyphPattern { glyph: "🬹"@, pattern: 0b00_11_11 },
        GlyphPattern { glyph: "🬺"@, pattern: 0b10_11_11 },
        GlyphPattern { glyph: "🬻"@, pattern: 0b01_11_11 },
    ]
}

/// The ms 2x3 catalog at the specification level.
pub open spec fn ms_2x3_catalog() -> Seq<GlyphPattern> {
    ms_2x3_catalog_0() + ms_2x3_catalog_1() + ms_2x3_catalog_2() + ms_2x3_catalog_3() + ms_2x3_catalog_4() + ms_2x3_catalog_5()
}

/// The set 1x1 catalog at the specification level.
pub open spec fn set_1x1_catalog() -> Seq<GlyphPattern> {
    seq![
        GlyphPattern { glyph: "█"@, pattern: 0b1 },
        GlyphPattern { glyph: " "@, pattern: 0b0 },
    ]
}

/// The set 1x2 catalog at the specification level.
pub open spec fn set_1x2_catalog() -> Seq<GlyphPattern> {
    seq![
        GlyphPattern { glyph: "█"@, pattern: 0b1_1 },
        GlyphPattern { glyph: " "@, pattern: 0b0_0 },
        GlyphPattern { glyph: "🬎"@, pattern: 0b1_0 },
        GlyphPattern { glyph: "🬹"@, pattern: 0b0_1 },
    ]
}

/// The set 2x2 catalog at the specification level.
pub open spec fn set_2x2_catalog() -> Seq<GlyphPattern> {
    seq![
        GlyphPattern { glyph: "█"@, pattern: 0b11_11 },
        GlyphPattern { glyph: "▖"@, pattern: 0b00_10 },
        GlyphPattern { glyph: "▗"@, pattern: 0b00_01 },
        GlyphPattern { glyph: "▘"@, pattern: 0b10_00 },
        GlyphPattern { glyph: "▙"@, pattern: 0b10_11 },
        GlyphPattern { glyph: "▚"@, pattern: 0b10_01 },
        GlyphPattern { glyph: "▛"@, pattern: 0b11_10 },
        GlyphPattern { glyph: "▜"@, pattern: 0b11_01 },
        GlyphPattern { glyph: "▝"@, pattern: 0b01_00 },
        GlyphPattern { glyph: "▞"@, pattern: 0b01_10 },
        GlyphPattern { glyph: "▟"@, pattern: 0b01_11 },
        GlyphPattern { glyph: " "@, pattern: 0b00_00 },
        GlyphPattern { glyph: "🬎"@, pattern: 0b11_00 },
        GlyphPattern { glyph: "🬹"@, pattern: 0b00_11 },
        GlyphPattern { glyph: "▌"@, pattern: 0b10_10 },
        GlyphPattern { glyph: "▐"@, pattern: 0b01_01 },
    ]
}

/// One piece of the set 2x3 catalog, as appended by its builder.
pub open spec fn set_2x3_catalog_0() -> Seq<GlyphPattern> {
    seq![
        GlyphPattern { glyph: "█"@, pattern: 0b11_11_11 },
        GlyphPattern { glyph: " "@, pattern: 0b00_00_00 },
        GlyphPattern { glyph: "🬀"@, pattern: 0b10_00_00 },
        GlyphPattern { glyph: "🬁"@, pattern: 0b01_00_00 },
        GlyphPattern { glyph: "🬂"@, pattern: 0b11_00_00 },
        GlyphPattern { glyph: "🬃"@, pattern: 0b00_10_00 },
        GlyphPattern { glyph: "🬄"@, pattern: 0b10_10_00 },
        GlyphPattern { glyph: "🬅"@, pattern: 0b01_10_00 },
        GlyphPattern { glyph: "🬆"@, pattern: 0b11_10_00 },
        GlyphPattern { glyph: "🬇"@, pattern: 0b00_01_00 },
        GlyphPattern { glyph: "🬈"@, pattern: 0b10_01_00 },
        GlyphPattern { glyph: "🬉"@, pattern: 0b01_01_00 },
        GlyphPattern { glyph: "🬊"@, pattern: 0b11_01_00 },
        GlyphPattern { glyph: "🬋"@, pattern: 0b00_11_00 },
        GlyphPattern { glyph: "🬌"@, pattern: 0b10_11_00 },
        GlyphPattern { glyph: "🬍"@, pattern: 0b01_11_00 },
    ]
}

/// One piece of the set 2x3 catalog, as appended by its builder.
pub open spec fn set_2x3_catalog_1() -> Seq<GlyphPattern> {
    seq![
        GlyphPattern { glyph: "🬎"@, pattern: 0b11_11_00 },
        GlyphPattern { glyph: "🬏"@, pattern: 0b00_00_10 },
        GlyphPattern { glyph: "🬐"@, pattern: 0b10_00_10 },
        GlyphPattern { glyph: "🬑"@, pattern: 0b01_00_10 },
        GlyphPattern { glyph: "🬒"@, pattern: 0b11_00_10 },
        GlyphPattern { glyph: "🬓"@, pattern: 0b00_10_10 },
        GlyphPattern { glyph: "▌"@, pattern: 0b10_10_10 },
        GlyphPattern { glyph: "🬔"@, pattern: 0b01_10_10 },
        GlyphPattern { glyph: "🬕"@, pattern: 0b11_10_10 },
        GlyphPattern { glyph: "🬖"@, pattern: 0b00_01_10 },
        GlyphPattern { glyph: "🬗"@, pattern: 0b10_01_10 },
        GlyphPattern { glyph: "🬘"@, pattern: 0b01_01_10 },
        GlyphPattern { glyph: "🬙"@, pattern: 0b11_01_10 },
        GlyphPattern { glyph: "🬚"@, pattern: 0b00_11_10 },
        GlyphPattern { glyph: "🬛"@, pattern: 0b10_11_10 },
        GlyphPattern { glyph: "🬜"@, pattern: 0b01_11_10 },
    ]
}

/// One piece of the set 2x3 catalog, as appended by its builder.
pub open spec fn set_2x3_catalog_2() -> Seq<GlyphPattern> {
    seq![
        GlyphPattern { glyph: "🬝"@, pattern: 0b11_11_10 },
        GlyphPattern { glyph: "🬞"@, pattern: 0b00_00_01 },
        GlyphPattern { glyph: "🬟"@, pattern: 0b10_00_01 },
        GlyphPattern { glyph: "🬠"@, pattern: 0b01_00_01 },
        GlyphPattern { glyph: "🬡"@, pattern: 0b11_00_01 },
        GlyphPattern { glyph: "🬢"@, pattern: 0b00_10_01 },
        GlyphPattern { glyph: "🬣"@, pattern: 0b10_10_01 },
        GlyphPattern { glyph: "🬤"@, pattern: 0b01_10_01 },
        GlyphPattern { glyph: "🬥"@, pattern: 0b11_10_01 },
        GlyphPattern { glyph: "🬦"@, pattern: 0b00_01_01 },
        GlyphPattern { glyph: "▐"@, pattern: 0b01_01_01 },
        GlyphPattern { glyph: "🬧"@, pattern: 0b10_01_01 },
        GlyphPattern { glyph: "🬨"@, pattern: 0b11_01_01 },
        GlyphPattern { glyph: "🬩"@, pattern: 0b00_11_01 },
        GlyphPattern { glyph: "🬪"@, pattern: 0b10_11_01 },
        GlyphPattern { glyph: "🬫"@, pattern: 0b01_11_01 },
    ]
}

/// One piece of the set 2x3 catalog, as appended by its builder.
pub open spec fn set_2x3_catalog_3() -> Seq<GlyphPattern> {
    seq![
        GlyphPattern { glyph: "🬬"@, pattern: 0b11_11_01 },
        GlyphPattern { glyph: "🬭"@, pattern: 0b00_00_11 },
        GlyphPattern { glyph: "🬮"@, pattern: 0b10_00_11 },
        GlyphPattern { glyph: "🬯"@, pattern: 0b01_00_11 },
        GlyphPattern { glyph: "🬰"@, pattern: 0b11_00_11 },
        GlyphPattern { glyph: "🬱"@, pattern: 0b00_10_11 },
        GlyphPattern { glyph: "🬲"@, pattern: 0b10_10_11 },
        GlyphPattern { glyph: "🬳"@, pattern: 0b01_10_11 },
        GlyphPattern { glyph: "🬴"@, pattern: 0b11_10_11 },
        GlyphPattern { glyph: "🬵"@, pattern: 0b00_01_11 },
        GlyphPattern { glyph: "🬶"@, pattern: 0b10_01_11 },
        GlyphPattern { glyph: "🬷"@, pattern: 0b01_01_11 },
        GlyphPattern { glyph: "🬸"@, pattern: 0b11_01_11 },
        GlyphPattern { glyph: "🬹"@, pattern: 0b00_11_11 },
        GlyphPattern { glyph: "🬺"@, pattern: 0b10_11_11 },
        GlyphPattern { glyph: "🬻"@, pattern: 0b01_11_11 },
    ]
}

/// The set 2x3 catalog at the specification level.
pub open spec fn set_2x3_catalog() -> Seq<GlyphPattern> {
    set_2x3_catalog_0() + set_2x3_catalog_1() + set_2x3_catalog_2() + set_2x3_catalog_3()
}

/// Appends piece 0 of the slc catalog.
fn slc_entries_0(entries: &mut Vec<CatalogEntry>)
    requires
        forall|j: int|
            0 <= j < old(entries)@.len() ==> (#[trigger] old(entries)@[j].glyph)@.len() >= 1,
        catalog_max_len(old(entries)@) == 0,
    ensures
        final(entries)@.len() == old(entries)@.len() + 16,
        forall|j: int|
            0 <= j < final(entries)@.len() ==> (#[trigger] final(entries)@[j].glyph)@.len() >= 1,
        catalog_view(final(entries)@) == catalog_view(old(entries)@) + slc_catalog_0(),
        catalog_max_len(final(entries)@) == 4,
{
    proof {
        reveal_strlit(" ");
        assert(" "@ =~= seq![' ']);
        lemma_char_byte_len(' ');
    }
    push_entry(entries, " ", 0b000_000_000);
    proof {
        reveal_strlit("╋");
        assert("╋"@ =~= seq!['╋']);
        lemma_char_byte_len('╋');
    }
    push_entry(entries, "╋", 0b010_111_010);
    proof {
        reveal_strlit("🬃");
        assert("🬃"@ =~= seq!['🬃']);
        lemma_char_byte_len('🬃');
    }
    push_entry(entries, "🬃", 0b000_110_000);
    proof {
        reveal_strlit("🬃");
        assert("🬃"@ =~= seq!['🬃']);
        lemma_char_byte_len('🬃');
    }
    push_entry(entries, "🬃", 0b000_100_000);
    proof {
        reveal_strlit("╹");
        assert("╹"@ =~= seq!['╹']);
        lemma_char_byte_len('╹');
    }
    push_entry(entries, "╹", 0b010_010_000);
    proof {
        reveal_strlit("🬇");
        assert("🬇"@ =~= seq!['🬇']);
        lemma_char_byte_len('🬇');
    }
    push_entry(entries, "🬇", 0b000_011_000);
    proof {
        reveal_strlit("🬇");
        assert("🬇"@ =~= seq!['🬇']);
        lemma_char_byte_len('🬇');
    }
    push_entry(entries, "🬇", 0b000_001_000);
    proof {
        reveal_strlit("╻");
        assert("╻"@ =~= seq!['╻']);
        lemma_char_byte_len('╻');
    }
    push_entry(entries, "╻", 0b000_010_010);
    proof {
        reveal_strlit("█");
        assert("█"@ =~= seq!['█']);
        lemma_char_byte_len('█');
    }
    push_entry(entries, "█", 0b111_111_111);
    proof {
        reveal_strlit("▋");
        assert("▋"@ =~= seq!['▋']);
        lemma_char_byte_len('▋');
    }
    push_entry(entries, "▋", 0b110_110_110);
    proof {
        reveal_strlit("▍");
        assert("▍"@ =~= seq!['▍']);
        lemma_char_byte_len('▍');
    }
    push_entry(entries, "▍", 0b100_100_100);
    proof {
        reveal_strlit("🬀");
        assert("🬀"@ =~= seq!['🬀']);
        lemma_char_byte_len('🬀');
    }
    push_entry(entries, "🬀", 0b110_000_000);
    proof {
        reveal_strlit("🬁");
        assert("🬁"@ =~= seq!['🬁']);
        lemma_char_byte_len('🬁');
    }
    push_entry(entries, "🬁", 0b011_000_000);
    proof {
        reveal_strlit("🬂");
        assert("🬂"@ =~= seq!['🬂']);
        lemma_char_byte_len('🬂');
    }
    push_entry(entries, "🬂", 0b111_000_000);
    proof {
        reveal_strlit("🬋");
        assert("🬋"@ =~= seq!['🬋']);
        lemma_char_byte_len('🬋');
    }
    push_entry(entries, "🬋", 0b000_111_000);
    proof {
        reveal_strlit("🬎");
        assert("🬎"@ =~= seq!['🬎']);
        lemma_char_byte_len('🬎');
    }
    push_entry(entries, "🬎", 0b111_111_000);
    proof {
        assert(catalog_view(entries@) =~= catalog_view(old(entries)@) + slc_catalog_0());
    }
}

/// Appends piece 1 of the slc catalog.
fn slc_entries_1(entries: &mut Vec<CatalogEntry>)
    requires
        forall|j: int|
            0 <= j < old(entries)@.len() ==> (#[trigger] old(entries)@[j].glyph)@.len() >= 1,
        catalog_max_len(old(entries)@) == 4,
    ensures
        final(entries)@.len() == old(entries)@.len() + 16,
        forall|j: int|
            0 <= j < final(entries)@.len() ==> (#[trigger] final(entries)@[j].glyph)@.len() >= 1,
        catalog_view(final(entries)@) == catalog_view(old(entries)@) + slc_catalog_1(),
        catalog_max_len(final(entries)@) == 4,
{
    proof {
        reveal_strlit("🬏");
        assert("🬏"@ =~= seq!['🬏']);
        lemma_char_byte_len('🬏');
    }
    push_entry(entries, "🬏", 0b000_000_110);
    proof {
        reveal_strlit("🬞");
        assert("🬞"@ =~= seq!['🬞']);
        lemma_char_byte_len('🬞');
    }
    push_entry(entries, "🬞", 0b000_000_011);
    proof {
        reveal_strlit("🬭");
        assert("🬭"@ =~= seq!['🬭']);
        lemma_char_byte_len('🬭');
    }
    push_entry(entries, "🬭", 0b000_000_111);
    proof {
        reveal_strlit("🬰");
        assert("🬰"@ =~= seq!['🬰']);
        lemma_char_byte_len('🬰');
    }
    push_entry(entries, "🬰", 0b111_000_111);
    proof {
        reveal_strlit("🬹");
        assert("🬹"@ =~= seq!['🬹']);
        lemma_char_byte_len('🬹');
    }
    push_entry(entries, "🬹", 0b000_111_111);
    proof {
        reveal_strlit("🬼");
        assert("🬼"@ =~= seq!['🬼']);
        lemma_char_byte_len('🬼');
    }
    push_entry(entries, "🬼", 0b000_000_100);
    proof {
        reveal_strlit("🬾");
        assert("🬾"@ =~= seq!['🬾']);
        lemma_char_byte_len('🬾');
    }
    push_entry(entries, "🬾", 0b000_100_100);
    proof {
        reveal_strlit("🬿");
        assert("🬿"@ =~= seq!['🬿']);
        lemma_char_byte_len('🬿');
    }
    push_entry(entries, "🬿", 0b000_100_111);
    proof {
        reveal_strlit("🬿");
        assert("🬿"@ =~= seq!['🬿']);
        lemma_char_byte_len('🬿');
    }
    push_entry(entries, "🬿", 0b000_110_111);
    proof {
        reveal_strlit("🭀");
        assert("🭀"@ =~= seq!['🭀']);
        lemma_char_byte_len('🭀');
    }
    push_entry(entries, "🭀", 0b100_100_110);
    proof {
        reveal_strlit("🭀");
        assert("🭀"@ =~= seq!['🭀']);
        lemma_char_byte_len('🭀');
    }
    push_entry(entries, "🭀", 0b100_110_110);
    proof {
        reveal_strlit("🭁");
        assert("🭁"@ =~= seq!['🭁']);
        lemma_char_byte_len('🭁');
    }
    push_entry(entries, "🭁", 0b011_111_111);
    proof {
        reveal_strlit("🭂");
        assert("🭂"@ =~= seq!['🭂']);
        lemma_char_byte_len('🭂');
    }
    push_entry(entries, "🭂", 0b001_111_111);
    proof {
        reveal_strlit("🭄");
        assert("🭄"@ =~= seq!['🭄']);
        lemma_char_byte_len('🭄');
    }
    push_entry(entries, "🭄", 0b001_011_111);
    proof {
        reveal_strlit("🭅");
        assert("🭅"@ =~= seq!['🭅']);
        lemma_char_byte_len('🭅');
    }
    push_entry(entries, "🭅", 0b011_011_111);
    proof {
        reveal_strlit("🭆");
        assert("🭆"@ =~= seq!['🭆']);
        lemma_char_byte_len('🭆');
    }
    push_entry(entries, "🭆", 0b000_001_111);
    proof {
        assert(catalog_view(entries@) =~= catalog_view(old(entries)@) + slc_catalog_1());
    }
}

/// Appends piece 2 of the slc catalog.
fn slc_entries_2(entries: &mut Vec<CatalogEntry>)
    requires
        forall|j: int|
            0 <= j < old(entries)@.len() ==> (#[trigger] old(entries)@[j].glyph)@.len() >= 1,
        catalog_max_len(old(entries)@) == 4,
    ensures
        final(entries)@.len() == old(entries)@.len() + 16,
        forall|j: int|
            0 <= j < final(entries)@.len() ==> (#[trigger] final(entries)@[j].glyph)@.len() >= 1,
        catalog_view(final(entries)@) == catalog_view(old(entries)@) + slc_catalog_2(),
        catalog_max_len(final(entries)@) == 4,
{
    proof {
        reveal_strlit("🭆");
        assert("🭆"@ =~= seq!['🭆']);
        lemma_char_byte_len('🭆');
    }
    push_entry(entries, "🭆", 0b000_011_111);
    proof {
        reveal_strlit("🭇");
        assert("🭇"@ =~= seq!['🭇']);
        lemma_char_byte_len('🭇');
    }
    push_entry(entries, "🭇", 0b000_000_001);
    proof {
        reveal_strlit("🭉");
        assert("🭉"@ =~= seq!['🭉']);
        lemma_char_byte_len('🭉');
    }
    push_entry(entries, "🭉", 0b000_001_001);
    proof {
        reveal_strlit("🭌");
        assert("🭌"@ =~= seq!['🭌']);
        lemma_char_byte_len('🭌');
    }
    push_entry(entries, "🭌", 0b110_111_111);
    proof {
        reveal_strlit("🭍");
        assert("🭍"@ =~= seq!['🭍']);
        lemma_char_byte_len('🭍');
    }
    push_entry(entries, "🭍", 0b100_111_111);
    proof {
        reveal_strlit("🭐");
        assert("🭐"@ =~= seq!['🭐']);
        lemma_char_byte_len('🭐');
    }
    push_entry(entries, "🭐", 0b110_110_111);
    proof {
        reveal_strlit("🭒");
        assert("🭒"@ =~= seq!['🭒']);
        lemma_char_byte_len('🭒');
    }
    push_entry(entries, "🭒", 0b111_111_011);
    proof {
        reveal_strlit("🭕");
        assert("🭕"@ =~= seq!['🭕']);
        lemma_char_byte_len('🭕');
    }
    push_entry(entries, "🭕", 0b111_011_001);
    proof {
        reveal_strlit("🭖");
        assert("🭖"@ =~= seq!['🭖']);
        lemma_char_byte_len('🭖');
    }
    push_entry(entries, "🭖", 0b111_011_011);
    proof {
        reveal_strlit("🭗");
        assert("🭗"@ =~= seq!['🭗']);
        lemma_char_byte_len('🭗');
    }
    push_entry(entries, "🭗", 0b100_000_000);
    proof {
        reveal_strlit("🭙");
        assert("🭙"@ =~= seq!['🭙']);
        lemma_char_byte_len('🭙');
    }
    push_entry(entries, "🭙", 0b100_100_000);
    proof {
        reveal_strlit("🭜");
        assert("🭜"@ =~= seq!['🭜']);
        lemma_char_byte_len('🭜');
    }
    push_entry(entries, "🭜", 0b111_100_000);
    proof {
        reveal_strlit("🭜");
        assert("🭜"@ =~= seq!['🭜']);
        lemma_char_byte_len('🭜');
    }
    push_entry(entries, "🭜", 0b111_110_000);
    proof {
        reveal_strlit("🭝");
        assert("🭝"@ =~= seq!['🭝']);
        lemma_char_byte_len('🭝');
    }
    push_entry(entries, "🭝", 0b111_111_110);
    proof {
        reveal_strlit("🭞");
        assert("🭞"@ =~= seq!['🭞']);
        lemma_char_byte_len('🭞');
    }
    push_entry(entries, "🭞", 0b111_111_100);
    proof {
        reveal_strlit("🭠");
        assert("🭠"@ =~= seq!['🭠']);
        lemma_char_byte_len('🭠');
    }
    push_entry(entries, "🭠", 0b111_110_100);
    proof {
        assert(catalog_view(entries@) =~= catalog_view(old(entries)@) + slc_catalog_2());
    }
}

/// Appends piece 3 of the slc catalog.
fn slc_entries_3(entries: &mut Vec<CatalogEntry>)
    requires
        forall|j: int|
            0 <= j < old(entries)@.len() ==> (#[trigger] old(entries)@[j].glyph)@.len() >= 1,
        catalog_max_len(old(entries)@) == 4,
    ensures
        final(entries)@.len() == old(entries)@.len() + 16,
        forall|j: int|
            0 <= j < final(entries)@.len() ==> (#[trigger] final(entries)@[j].glyph)@.len() >= 1,
        catalog_view(final(entries)@) == catalog_view(old(entries)@) + slc_catalog_3(),
        catalog_max_len(final(entries)@) == 4,
{
    proof {
        reveal_strlit("🭡");
        assert("🭡"@ =~= seq!['🭡']);
        lemma_char_byte_len('🭡');
    }
    push_entry(entries, "🭡", 0b111_110_110);
    proof {
        reveal_strlit("🭢");
        assert("🭢"@ =~= seq!['🭢']);
        lemma_char_byte_len('🭢');
    }
    push_entry(entries, "🭢", 0b001_000_000);
    proof {
        reveal_strlit("🭤");
        assert("🭤"@ =~= seq!['🭤']);
        lemma_char_byte_len('🭤');
    }
    push_entry(entries, "🭤", 0b001_001_000);
    proof {
        reveal_strlit("🭧");
        assert("🭧"@ =~= seq!['🭧']);
        lemma_char_byte_len('🭧');
    }
    push_entry(entries, "🭧", 0b111_001_000);
    proof {
        reveal_strlit("🭧");
        assert("🭧"@ =~= seq!['🭧']);
        lemma_char_byte_len('🭧');
    }
    push_entry(entries, "🭧", 0b111_011_000);
    proof {
        reveal_strlit("🭨");
        assert("🭨"@ =~= seq!['🭨']);
        lemma_char_byte_len('🭨');
    }
    push_entry(entries, "🭨", 0b111_011_111);
    proof {
        reveal_strlit("🭩");
        assert("🭩"@ =~= seq!['🭩']);
        lemma_char_byte_len('🭩');
    }
    push_entry(entries, "🭩", 0b101_111_111);
    proof {
        reveal_strlit("🭪");
        assert("🭪"@ =~= seq!['🭪']);
        lemma_char_byte_len('🭪');
    }
    push_entry(entries, "🭪", 0b111_110_111);
    proof {
        reveal_strlit("🭫");
        assert("🭫"@ =~= seq!['🭫']);
        lemma_char_byte_len('🭫');
    }
    push_entry(entries, "🭫", 0b111_111_101);
    proof {
        reveal_strlit("🭬");
        assert("🭬"@ =~= seq!['🭬']);
        lemma_char_byte_len('🭬');
    }
    push_entry(entries, "🭬", 0b100_110_100);
    proof {
        reveal_strlit("🭭");
        assert("🭭"@ =~= seq!['🭭']);
        lemma_char_byte_len('🭭');
    }
    push_entry(entries, "🭭", 0b111_010_000);
    proof {
        reveal_strlit("🭮");
        assert("🭮"@ =~= seq!['🭮']);
        lemma_char_byte_len('🭮');
    }
    push_entry(entries, "🭮", 0b001_011_001);
    proof {
        reveal_strlit("🭯");
        assert("🭯"@ =~= seq!['🭯']);
        lemma_char_byte_len('🭯');
    }
    push_entry(entries, "🭯", 0b000_010_111);
    proof {
        reveal_strlit("🮚");
        assert("🮚"@ =~= seq!['🮚']);
        lemma_char_byte_len('🮚');
    }
    push_entry(entries, "🮚", 0b111_010_111);
    proof {
        reveal_strlit("🮛");
        assert("🮛"@ =~= seq!['🮛']);
        lemma_char_byte_len('🮛');
    }
    push_entry(entries, "🮛", 0b101_111_101);
    proof {
        reveal_strlit("🭲");
        assert("🭲"@ =~= seq!['🭲']);
        lemma_char_byte_len('🭲');
    }
    push_entry(entries, "🭲", 0b010_010_010);
    proof {
        assert(catalog_view(entries@) =~= catalog_view(old(entries)@) + slc_catalog_3());
    }
}

/// Appends piece 4 of the slc catalog.
fn slc_entries_4(entries: &mut Vec<CatalogEntry>)
    requires
        forall|j: int|
            0 <= j < old(entries)@.len() ==> (#[trigger] old(entries)@[j].glyph)@.len() >= 1,
        catalog_max_len(old(entries)@) == 4,
    ensures
        final(entries)@.len() == old(entries)@.len() + 2,
        forall|j: int|
            0 <= j < final(entries)@.len() ==> (#[trigger] final(entries)@[j].glyph)@.len() >= 1,
        catalog_view(final(entries)@) == catalog_view(old(entries)@) + slc_catalog_4(),
        catalog_max_len(final(entries)@) == 4,
{
    proof {
        reveal_strlit("🮇");
        assert("🮇"@ =~= seq!['🮇']);
        lemma_char_byte_len('🮇');
    }
    push_entry(entries, "🮇", 0b001_001_001);
    proof {
        reveal_strlit("🮉");
        assert("🮉"@ =~= seq!['🮉']);
        lemma_char_byte_len('🮉');
    }
    push_entry(entries, "🮉", 0b011_011_011);
    proof {
        assert(catalog_view(entries@) =~= catalog_view(old(entries)@) + slc_catalog_4());
    }
}

/// Single-line-character approximation over a 3 by 3 block.
pub fn glyph_set_slc() -> (r: IndexedGlyphSet)
    ensures
        r.inv(),
        r.spec_mask_dims() == (3usize, 3usize),
        r.spec_mask_overlap() == (0usize, 0usize),
        r.spec_max_glyph_len() == 4,
        r.spec_glyph(0b111_111_111) == "█"@,
        r.spec_glyph(0) == " "@,
        // the table is built from this set's own catalog: an exact pattern
        // resolves to its earliest-listed glyph, and every fragment shows
        // some catalog glyph
        forall|j: int|
            0 <= j < slc_catalog().len() && first_with_pattern(slc_catalog(), 9, j) ==> r.spec_glyph(
                decode_spec((#[trigger] slc_catalog()[j]).pattern, 9) as Fragment,
            ) == slc_catalog()[j].glyph,
        forall|f: Fragment|
            f < crate::glyphsets::frag_count(3, 3) ==> #[trigger] in_catalog(
                slc_catalog(),
                r.spec_glyph(f),
            ),
{
    let mut entries: Vec<CatalogEntry> = Vec::new();
    proof {
        assert(catalog_view(entries@) =~= Seq::<GlyphPattern>::empty());
    }
    slc_entries_0(&mut entries);
    slc_entries_1(&mut entries);
    slc_entries_2(&mut entries);
    slc_entries_3(&mut entries);
    slc_entries_4(&mut entries);
    proof {
        assert(catalog_view(entries@) =~= slc_catalog());
    }
    let r = IndexedGlyphSet::from_catalog([3, 3], [0, 0], &entries);
    proof {
        assert forall|j: int|
            0 <= j < slc_catalog().len() && first_with_pattern(slc_catalog(), 9, j) implies r.spec_glyph(
            decode_spec(slc_catalog()[j].pattern, 9) as Fragment,
        ) == slc_catalog()[j].glyph by {
            lemma_first_view(entries@, 9, j);
            assert(entries@[j].pattern == slc_catalog()[j].pattern);
            assert(entries@[j].glyph@ == slc_catalog()[j].glyph);
        }
        assert forall|f: Fragment| f < crate::glyphsets::frag_count(3, 3) implies #[trigger] in_catalog(
            slc_catalog(),
            r.spec_glyph(f),
        ) by {
            let j = choose|j: int|
                0 <= j < entries@.len() && #[trigger] r.spec_glyph(f) == entries@[j].glyph@;
            assert(slc_catalog().len() == entries@.len());
            assert(0 <= j < slc_catalog().len() && r.spec_glyph(f) == slc_catalog()[j].glyph);
        }
        // the full block and the blank are exact first-listed patterns
        assert(!crate::bits::bit64(0b000_000_000u64, 0) && !crate::bits::bit64(0b010_111_010u64, 0) && !crate::bits::bit64(0b000_110_000u64, 0) && !crate::bits::bit64(0b000_100_000u64, 0) && !crate::bits::bit64(0b010_010_000u64, 0) && !crate::bits::bit64(0b000_011_000u64, 0) && !crate::bits::bit64(0b000_001_000u64, 0) && !crate::bits::bit64(0b000_010_010u64, 0)) by (bit_vector);
        assert forall|k: u64| k < 9 implies crate::bits::bit64(0b111_111_111u64, k) by {
            assert(k < 9 ==> crate::bits::bit64(0b111_111_111u64, k)) by (bit_vector);
        }
        assert forall|k: u64| k < 9 implies !crate::bits::bit64(0u64, k) by {
            assert(!crate::bits::bit64(0u64, k)) by (bit_vector);
        }
        assert(slc_catalog()[0] == slc_catalog_0()[0]);
        assert(slc_catalog_0()[0].pattern == 0b000_000_000u64);
        assert(entries@[0].pattern == 0b000_000_000u64);
        assert(slc_catalog()[1] == slc_catalog_0()[1]);
        assert(slc_catalog_0()[1].pattern == 0b010_111_010u64);
        assert(entries@[1].pattern == 0b010_111_010u64);
        assert(slc_catalog()[2] == slc_catalog_0()[2]);
        assert(slc_catalog_0()[2].pattern == 0b000_110_000u64);
        assert(entries@[2].pattern == 0b000_110_000u64);
        assert(slc_catalog()[3] == slc_catalog_0()[3]);
        assert(slc_catalog_0()[3].pattern == 0b000_100_000u64);
        assert(entries@[3].pattern == 0b000_100_000u64);
        assert(slc_catalog()[4] == slc_catalog_0()[4]);
        assert(slc_catalog_0()[4].pattern == 0b010_010_000u64);
        assert(entries@[4].pattern == 0b010_010_000u64);
        assert(slc_catalog()[5] == slc_catalog_0()[5]);
        assert(slc_catalog_0()[5].pattern == 0b000_011_000u64);
        assert(entries@[5].pattern == 0b000_011_000u64);
        assert(slc_catalog()[6] == slc_catalog_0()[6]);
        assert(slc_catalog_0()[6].pattern == 0b000_001_000u64);
        assert(entries@[6].pattern == 0b000_001_000u64);
        assert(slc_catalog()[7] == slc_catalog_0()[7]);
        assert(slc_catalog_0()[7].pattern == 0b000_010_010u64);
        assert(entries@[7].pattern == 0b000_010_010u64);
        assert(slc_catalog()[8] == slc_catalog_0()[8]);
        assert(slc_catalog_0()[8].pattern == 0b111_111_111u64);
        assert(entries@[8].pattern == 0b111_111_111u64);
        vstd::arithmetic::power2::lemma2_to64();
        lemma_decode_all_ones(entries@[8].pattern, 9);
        assert(decode_spec(entries@[8].pattern, 9) == 511);
        lemma_decode_zero(entries@[0].pattern, 9);
        assert forall|k: int| 0 <= k < 8 implies #[trigger] decode_spec(entries@[k].pattern, 9)
            != decode_spec(entries@[8].pattern, 9) by {
            if k == 0 {
                lemma_decode_all_ones(entries@[0].pattern, 9);
            } else if k == 1 {
                lemma_decode_all_ones(entries@[1].pattern, 9);
            } else if k == 2 {
                lemma_decode_all_ones(entries@[2].pattern, 9);
            } else if k == 3 {
                lemma_decode_all_ones(entries@[3].pattern, 9);
            } else if k == 4 {
                lemma_decode_all_ones(entries@[4].pattern, 9);
            } else if k == 5 {
                lemma_decode_all_ones(entries@[5].pattern, 9);
            } else if k == 6 {
                lemma_decode_all_ones(entries@[6].pattern, 9);
            } else if k == 7 {
                lemma_decode_all_ones(entries@[7].pattern, 9);
            }
        }
        assert(crate::index::is_first_pattern(entries@, 9, 8));
        assert(crate::index::is_first_pattern(entries@, 9, 0));
        assert(r.spec_glyph(511) == entries@[8].glyph@);
        assert(r.spec_glyph(0) == entries@[0].glyph@);
    }
    r
}

/// Appends piece 0 of the ms 2x3 catalog.
fn ms_2x3_entries_0(entries: &mut Vec<CatalogEntry>)
    requires
        forall|j: int|
            0 <= j < old(entries)@.len() ==> (#[trigger] old(entries)@[j].glyph)@.len() >= 1,
        catalog_max_len(old(entries)@) == 0,
    ensures
        final(entries)@.len() == old(entries)@.len() + 16,
        forall|j: int|
            0 <= j < final(entries)@.len() ==> (#[trigger] final(entries)@[j].glyph)@.len() >= 1,
        catalog_view(final(entries)@) == catalog_view(old(entries)@) + ms_2x3_catalog_0(),
        catalog_max_len(final(entries)@) == 4,
{
    proof {
        reveal_strlit(" ");
        assert(" "@ =~= seq![' ']);
        lemma_char_byte_len(' ');
    }
    push_entry(entries, " ", 0b00_00_00);
    proof {
        reveal_strlit("█");
        assert("█"@ =~= seq!['█']);
        lemma_char_byte_len('█');
    }
    push_entry(entries, "█", 0b11_11_11);
    proof {
        reveal_strlit("🬂");
        assert("🬂"@ =~= seq!['🬂']);
        lemma_char_byte_len('🬂');
    }
    push_entry(entries, "🬂", 0b11_00_00);
    proof {
        reveal_strlit("🬋");
        assert("🬋"@ =~= seq!['🬋']);
        lemma_char_byte_len('🬋');
    }
    push_entry(entries, "🬋", 0b00_11_00);
    proof {
        reveal_strlit("🬎");
        assert("🬎"@ =~= seq!['🬎']);
        lemma_char_byte_len('🬎');
    }
    push_entry(entries, "🬎", 0b11_11_00);
    proof {
        reveal_strlit("🬭");
        assert("🬭"@ =~= seq!['🬭']);
        lemma_char_byte_len('🬭');
    }
    push_entry(entries, "🬭", 0b00_00_11);
    proof {
        reveal_strlit("🬰");
        assert("🬰"@ =~= seq!['🬰']);
        lemma_char_byte_len('🬰');
    }
    push_entry(entries, "🬰", 0b11_00_11);
    proof {
        reveal_strlit("🬹");
        assert("🬹"@ =~= seq!['🬹']);
        lemma_char_byte_len('🬹');
    }
    push_entry(entries, "🬹", 0b00_11_11);
    proof {
        reveal_strlit("🭁");
        assert("🭁"@ =~= seq!['🭁']);
        lemma_char_byte_len('🭁');
    }
    push_entry(entries, "🭁", 0b01_11_11);
    proof {
        reveal_strlit("🭃");
        assert("🭃"@ =~= seq!['🭃']);
        lemma_char_byte_len('🭃');
    }
    push_entry(entries, "🭃", 0b01_01_11);
    proof {
        reveal_strlit("🭆");
        assert("🭆"@ =~= seq!['🭆']);
        lemma_char_byte_len('🭆');
    }
    push_entry(entries, "🭆", 0b00_01_11);
    proof {
        reveal_strlit("🭇");
        assert("🭇"@ =~= seq!['🭇']);
        lemma_char_byte_len('🭇');
    }
    push_entry(entries, "🭇", 0b00_00_01);
    proof {
        reveal_strlit("🭉");
        assert("🭉"@ =~= seq!['🭉']);
        lemma_char_byte_len('🭉');
    }
    push_entry(entries, "🭉", 0b00_01_01);
    proof {
        reveal_strlit("🬼");
        assert("🬼"@ =~= seq!['🬼']);
        lemma_char_byte_len('🬼');
    }
    push_entry(entries, "🬼", 0b00_00_10);
    proof {
        reveal_strlit("🭌");
        assert("🭌"@ =~= seq!['🭌']);
        lemma_char_byte_len('🭌');
    }
    push_entry(entries, "🭌", 0b10_11_11);
    proof {
        reveal_strlit("🭎");
        assert("🭎"@ =~= seq!['🭎']);
        lemma_char_byte_len('🭎');
    }
    push_entry(entries, "🭎", 0b10_10_11);
    proof {
        assert(catalog_view(entries@) =~= catalog_view(old(entries)@) + ms_2x3_catalog_0());
    }
}

/// Appends piece 1 of the ms 2x3 catalog.
fn ms_2x3_entries_1(entries: &mut Vec<CatalogEntry>)
    requires
        forall|j: int|
            0 <= j < old(entries)@.len() ==> (#[trigger] old(entries)@[j].glyph)@.len() >= 1,
        catalog_max_len(old(entries)@) == 4,
    ensures
        final(entries)@.len() == old(entries)@.len() + 16,
        forall|j: int|
            0 <= j < final(entries)@.len() ==> (#[trigger] final(entries)@[j].glyph)@.len() >= 1,
        catalog_view(final(entries)@) == catalog_view(old(entries)@) + ms_2x3_catalog_1(),
        catalog_max_len(final(entries)@) == 4,
{
    proof {
        reveal_strlit("🭑");
        assert("🭑"@ =~= seq!['🭑']);
        lemma_char_byte_len('🭑');
    }
    push_entry(entries, "🭑", 0b00_10_11);
    proof {
        reveal_strlit("🬾");
        assert("🬾"@ =~= seq!['🬾']);
        lemma_char_byte_len('🬾');
    }
    push_entry(entries, "🬾", 0b00_10_10);
    proof {
        reveal_strlit("🭗");
        assert("🭗"@ =~= seq!['🭗']);
        lemma_char_byte_len('🭗');
    }
    push_entry(entries, "🭗", 0b10_00_00);
    proof {
        reveal_strlit("🭙");
        assert("🭙"@ =~= seq!['🭙']);
        lemma_char_byte_len('🭙');
    }
    push_entry(entries, "🭙", 0b10_10_00);
    proof {
        reveal_strlit("🭜");
        assert("🭜"@ =~= seq!['🭜']);
        lemma_char_byte_len('🭜');
    }
    push_entry(entries, "🭜", 0b11_10_00);
    proof {
        reveal_strlit("🭟");
        assert("🭟"@ =~= seq!['🭟']);
        lemma_char_byte_len('🭟');
    }
    push_entry(entries, "🭟", 0b11_10_10);
    proof {
        reveal_strlit("🭝");
        assert("🭝"@ =~= seq!['🭝']);
        lemma_char_byte_len('🭝');
    }
    push_entry(entries, "🭝", 0b11_11_10);
    proof {
        reveal_strlit("🭢");
        assert("🭢"@ =~= seq!['🭢']);
        lemma_char_byte_len('🭢');
    }
    push_entry(entries, "🭢", 0b01_00_00);
    proof {
        reveal_strlit("🭤");
        assert("🭤"@ =~= seq!['🭤']);
        lemma_char_byte_len('🭤');
    }
    push_entry(entries, "🭤", 0b01_01_00);
    proof {
        reveal_strlit("🭧");
        assert("🭧"@ =~= seq!['🭧']);
        lemma_char_byte_len('🭧');
    }
    push_entry(entries, "🭧", 0b11_01_00);
    proof {
        reveal_strlit("🭔");
        assert("🭔"@ =~= seq!['🭔']);
        lemma_char_byte_len('🭔');
    }
    push_entry(entries, "🭔", 0b11_01_01);
    proof {
        reveal_strlit("🭒");
        assert("🭒"@ =~= seq!['🭒']);
        lemma_char_byte_len('🭒');
    }
    push_entry(entries, "🭒", 0b11_11_01);
    proof {
        reveal_strlit("▌");
        assert("▌"@ =~= seq!['▌']);
        lemma_char_byte_len('▌');
    }
    push_entry(entries, "▌", 0b10_10_10);
    proof {
        reveal_strlit("▐");
        assert("▐"@ =~= seq!['▐']);
        lemma_char_byte_len('▐');
    }
    push_entry(entries, "▐", 0b01_01_01);
    proof {
        reveal_strlit("🬀");
        assert("🬀"@ =~= seq!['🬀']);
        lemma_char_byte_len('🬀');
    }
    push_entry(entries, "🬀", 0b10_00_00);
    proof {
        reveal_strlit("🬁");
        assert("🬁"@ =~= seq!['🬁']);
        lemma_char_byte_len('🬁');
    }
    push_entry(entries, "🬁", 0b01_00_00);
    proof {
        assert(catalog_view(entries@) =~= catalog_view(old(entries)@) + ms_2x3_catalog_1());
    }
}

/// Appends piece 2 of the ms 2x3 catalog.
fn ms_2x3_entries_2(entries: &mut Vec<CatalogEntry>)
    requires
        forall|j: int|
            0 <= j < old(entries)@.len() ==> (#[trigger] old(entries)@[j].glyph)@.len() >= 1,
        catalog_max_len(old(entries)@) == 4,
    ensures
        final(entries)@.len() == old(entries)@.len() + 16,
        forall|j: int|
            0 <= j < final(entries)@.len() ==> (#[trigger] final(entries)@[j].glyph)@.len() >= 1,
        catalog_view(final(entries)@) == catalog_view(old(entries)@) + ms_2x3_catalog_2(),
        catalog_max_len(final(entries)@) == 4,
{
    proof {
        reveal_strlit("🬂");
        assert("🬂"@ =~= seq!['🬂']);
        lemma_char_byte_len('🬂');
    }
    push_entry(entries, "🬂", 0b11_00_00);
    proof {
        reveal_strlit("🬃");
        assert("🬃"@ =~= seq!['🬃']);
        lemma_char_byte_len('🬃');
    }
    push_entry(entries, "🬃", 0b00_10_00);
    proof {
        reveal_strlit("🬄");
        assert("🬄"@ =~= seq!['🬄']);
        lemma_char_byte_len('🬄');
    }
    push_entry(entries, "🬄", 0b10_10_00);
    proof {
        reveal_strlit("🬅");
        assert("🬅"@ =~= seq!['🬅']);
        lemma_char_byte_len('🬅');
    }
    push_entry(entries, "🬅", 0b01_10_00);
    proof {
        reveal_strlit("🬆");
        assert("🬆"@ =~= seq!['🬆']);
        lemma_char_byte_len('🬆');
    }
    push_entry(entries, "🬆", 0b11_10_00);
    proof {
        reveal_strlit("🬇");
        assert("🬇"@ =~= seq!['🬇']);
        lemma_char_byte_len('🬇');
    }
    push_entry(entries, "🬇", 0b00_01_00);
    proof {
        reveal_strlit("🬈");
        assert("🬈"@ =~= seq!['🬈']);
        lemma_char_byte_len('🬈');
    }
    push_entry(entries, "🬈", 0b10_01_00);
    proof {
        reveal_strlit("🬉");
        assert("🬉"@ =~= seq!['🬉']);
        lemma_char_byte_len('🬉');
    }
    push_entry(entries, "🬉", 0b01_01_00);
    proof {
        reveal_strlit("🬊");
        assert("🬊"@ =~= seq!['🬊']);
        lemma_char_byte_len('🬊');
    }
    push_entry(entries, "🬊", 0b11_01_00);
    proof {
        reveal_strlit("🬋");
        assert("🬋"@ =~= seq!['🬋']);
        lemma_char_byte_len('🬋');
    }
    push_entry(entries, "🬋", 0b00_11_00);
    proof {
        reveal_strlit("🬌");
        assert("🬌"@ =~= seq!['🬌']);
        lemma_char_byte_len('🬌');
    }
    push_entry(entries, "🬌", 0b10_11_00);
    proof {
        reveal_strlit("🬍");
        assert("🬍"@ =~= seq!['🬍']);
        lemma_char_byte_len('🬍');
    }
    push_entry(entries, "🬍", 0b01_11_00);
    proof {
        reveal_strlit("🬎");
        assert("🬎"@ =~= seq!['🬎']);
        lemma_char_byte_len('🬎');
    }
    push_entry(entries, "🬎", 0b11_11_00);
    proof {
        reveal_strlit("🬏");
        assert("🬏"@ =~= seq!['🬏']);
        lemma_char_byte_len('🬏');
    }
    push_entry(entries, "🬏", 0b00_00_10);
    proof {
        reveal_strlit("🬐");
        assert("🬐"@ =~= seq!['🬐']);
        lemma_char_byte_len('🬐');
    }
    push_entry(entries, "🬐", 0b10_00_10);
    proof {
        reveal_strlit("🬑");
        assert("🬑"@ =~= seq!['🬑']);
        lemma_char_byte_len('🬑');
    }
    push_entry(entries, "🬑", 0b01_00_10);
    proof {
        assert(catalog_view(entries@) =~= catalog_view(old(entries)@) + ms_2x3_catalog_2());
    }
}

/// Appends piece 3 of the ms 2x3 catalog.
fn ms_2x3_entries_3(entries: &mut Vec<CatalogEntry>)
    requires
        forall|j: int|
            0 <= j < old(entries)@.len() ==> (#[trigger] old(entries)@[j].glyph)@.len() >= 1,
        catalog_max_len(old(entries)@) == 4,
    ensures
        final(entries)@.len() == old(entries)@.len() + 16,
        forall|j: int|
            0 <= j < final(entries)@.len() ==> (#[trigger] final(entries)@[j].glyph)@.len() >= 1,
        catalog_view(final(entries)@) == catalog_view(old(entries)@) + ms_2x3_catalog_3(),
        catalog_max_len(final(entries)@) == 4,
{
    proof {
        reveal_strlit("🬒");
        assert("🬒"@ =~= seq!['🬒']);
        lemma_char_byte_len('🬒');
    }
    push_entry(entries, "🬒", 0b11_00_10);
    proof {
        reveal_strlit("🬓");
        assert("🬓"@ =~= seq!['🬓']);
        lemma_char_byte_len('🬓');
    }
    push_entry(entries, "🬓", 0b00_10_10);
    proof {
        reveal_strlit("▌");
        assert("▌"@ =~= seq!['▌']);
        lemma_char_byte_len('▌');
    }
    push_entry(entries, "▌", 0b10_10_10);
    proof {
        reveal_strlit("🬔");
        assert("🬔"@ =~= seq!['🬔']);
        lemma_char_byte_len('🬔');
    }
    push_entry(entries, "🬔", 0b01_10_10);
    proof {
        reveal_strlit("🬕");
        assert("🬕"@ =~= seq!['🬕']);
        lemma_char_byte_len('🬕');
    }
    push_entry(entries, "🬕", 0b11_10_10);
    proof {
        reveal_strlit("🬖");
        assert("🬖"@ =~= seq!['🬖']);
        lemma_char_byte_len('🬖');
    }
    push_entry(entries, "🬖", 0b00_01_10);
    proof {
        reveal_strlit("🬗");
        assert("🬗"@ =~= seq!['🬗']);
        lemma_char_byte_len('🬗');
    }
    push_entry(entries, "🬗", 0b10_01_10);
    proof {
        reveal_strlit("🬘");
        assert("🬘"@ =~= seq!['🬘']);
        lemma_char_byte_len('🬘');
    }
    push_entry(entries, "🬘", 0b01_01_10);
    proof {
        reveal_strlit("🬙");
        assert("🬙"@ =~= seq!['🬙']);
        lemma_char_byte_len('🬙');
    }
    push_entry(entries, "🬙", 0b11_01_10);
    proof {
        reveal_strlit("🬚");
        assert("🬚"@ =~= seq!['🬚']);
        lemma_char_byte_len('🬚');
    }
    push_entry(entries, "🬚", 0b00_11_10);
    proof {
        reveal_strlit("🬛");
        assert("🬛"@ =~= seq!['🬛']);
        lemma_char_byte_len('🬛');
    }
    push_entry(entries, "🬛", 0b10_11_10);
    proof {
        reveal_strlit("🬜");
        assert("🬜"@ =~= seq!['🬜']);
        lemma_char_byte_len('🬜');
    }
    push_entry(entries, "🬜", 0b01_11_10);
    proof {
        reveal_strlit("🬝");
        assert("🬝"@ =~= seq!['🬝']);
        lemma_char_byte_len('🬝');
    }
    push_entry(entries, "🬝", 0b11_11_10);
    proof {
        reveal_strlit("🬞");
        assert("🬞"@ =~= seq!['🬞']);
        lemma_char_byte_len('🬞');
    }
    push_entry(entries, "🬞", 0b00_00_01);
    proof {
        reveal_strlit("🬟");
        assert("🬟"@ =~= seq!['🬟']);
        lemma_char_byte_len('🬟');
    }
    push_entry(entries, "🬟", 0b10_00_01);
    proof {
        reveal_strlit("🬠");
        assert("🬠"@ =~= seq!['🬠']);
        lemma_char_byte_len('🬠');
    }
    push_entry(entries, "🬠", 0b01_00_01);
    proof {
        assert(catalog_view(entries@) =~= catalog_view(old(entries)@) + ms_2x3_catalog_3());
    }
}

/// Appends piece 4 of the ms 2x3 catalog.
fn ms_2x3_entries_4(entries: &mut Vec<CatalogEntry>)
    requires
        forall|j: int|
            0 <= j < old(entries)@.len() ==> (#[trigger] old(entries)@[j].glyph)@.len() >= 1,
        catalog_max_len(old(entries)@) == 4,
    ensures
        final(entries)@.len() == old(entries)@.len() + 16,
        forall|j: int|
            0 <= j < final(entries)@.len() ==> (#[trigger] final(entries)@[j].glyph)@.len() >= 1,
        catalog_view(final(entries)@) == catalog_view(old(entries)@) + ms_2x3_catalog_4(),
        catalog_max_len(final(entries)@) == 4,
{
    proof {
        reveal_strlit("🬡");
        assert("🬡"@ =~= seq!['🬡']);
        lemma_char_byte_len('🬡');
    }
    push_entry(entries, "🬡", 0b11_00_01);
    proof {
        reveal_strlit("🬢");
        assert("🬢"@ =~= seq!['🬢']);
        lemma_char_byte_len('🬢');
    }
    push_entry(entries, "🬢", 0b00_10_01);
    proof {
        reveal_strlit("🬣");
        assert("🬣"@ =~= seq!['🬣']);
        lemma_char_byte_len('🬣');
    }
    push_entry(entries, "🬣", 0b10_10_01);
    proof {
        reveal_strlit("🬤");
        assert("🬤"@ =~= seq!['🬤']);
        lemma_char_byte_len('🬤');
    }
    push_entry(entries, "🬤", 0b01_10_01);
    proof {
        reveal_strlit("🬥");
        assert("🬥"@ =~= seq!['🬥']);
        lemma_char_byte_len('🬥');
    }
    push_entry(entries, "🬥", 0b11_10_01);
    proof {
        reveal_strlit("🬦");
        assert("🬦"@ =~= seq!['🬦']);
        lemma_char_byte_len('🬦');
    }
    push_entry(entries, "🬦", 0b00_01_01);
    proof {
        reveal_strlit("▐");
        assert("▐"@ =~= seq!['▐']);
        lemma_char_byte_len('▐');
    }
    push_entry(entries, "▐", 0b01_01_01);
    proof {
        reveal_strlit("🬧");
        assert("🬧"@ =~= seq!['🬧']);
        lemma_char_byte_len('🬧');
    }
    push_entry(entries, "🬧", 0b10_01_01);
    proof {
        reveal_strlit("🬨");
        assert("🬨"@ =~= seq!['🬨']);
        lemma_char_byte_len('🬨');
    }
    push_entry(entries, "🬨", 0b11_01_01);
    proof {
        reveal_strlit("🬩");
        assert("🬩"@ =~= seq!['🬩']);
        lemma_char_byte_len('🬩');
    }
    push_entry(entries, "🬩", 0b00_11_01);
    proof {
        reveal_strlit("🬪");
        assert("🬪"@ =~= seq!['🬪']);
        lemma_char_byte_len('🬪');
    }
    push_entry(entries, "🬪", 0b10_11_01);
    proof {
        reveal_strlit("🬫");
        assert("🬫"@ =~= seq!['🬫']);
        lemma_char_byte_len('🬫');
    }
    push_entry(entries, "🬫", 0b01_11_01);
    proof {
        reveal_strlit("🬬");
        assert("🬬"@ =~= seq!['🬬']);
        lemma_char_byte_len('🬬');
    }
    push_entry(entries, "🬬", 0b11_11_01);
    proof {
        reveal_strlit("🬭");
        assert("🬭"@ =~= seq!['🬭']);
        lemma_char_byte_len('🬭');
    }
    push_entry(entries, "🬭", 0b00_00_11);
    proof {
        reveal_strlit("🬮");
        assert("🬮"@ =~= seq!['🬮']);
        lemma_char_byte_len('🬮');
    }
    push_entry(entries, "🬮", 0b10_00_11);
    proof {
        reveal_strlit("🬯");
        assert("🬯"@ =~= seq!['🬯']);
        lemma_char_byte_len('🬯');
    }
    push_entry(entries, "🬯", 0b01_00_11);
    proof {
        assert(catalog_view(entries@) =~= catalog_view(old(entries)@) + ms_2x3_catalog_4());
    }
}

/// Appends piece 5 of the ms 2x3 catalog.
fn ms_2x3_entries_5(entries: &mut Vec<CatalogEntry>)
    requires
        forall|j: int|
            0 <= j < old(entries)@.len() ==> (#[trigger] old(entries)@[j].glyph)@.len() >= 1,
        catalog_max_len(old(entries)@) == 4,
    ensures
        final(entries)@.len() == old(entries)@.len() + 12,
        forall|j: int|
            0 <= j < final(entries)@.len() ==> (#[trigger] final(entries)@[j].glyph)@.len() >= 1,
        catalog_view(final(entries)@) == catalog_view(old(entries)@) + ms_2x3_catalog_5(),
        catalog_max_len(final(entries)@) == 4,
{
    proof {
        reveal_strlit("🬰");
        assert("🬰"@ =~= seq!['🬰']);
        lemma_char_byte_len('🬰');
    }
    push_entry(entries, "🬰", 0b11_00_11);
    proof {
        reveal_strlit("🬱");
        assert("🬱"@ =~= seq!['🬱']);
        lemma_char_byte_len('🬱');
    }
    push_entry(entries, "🬱", 0b00_10_11);
    proof {
        reveal_strlit("🬲");
        assert("🬲"@ =~= seq!['🬲']);
        lemma_char_byte_len('🬲');
    }
    push_entry(entries, "🬲", 0b10_10_11);
    proof {
        reveal_strlit("🬳");
        assert("🬳"@ =~= seq!['🬳']);
        lemma_char_byte_len('🬳');
    }
    push_entry(entries, "🬳", 0b01_10_11);
    proof {
        reveal_strlit("🬴");
        assert("🬴"@ =~= seq!['🬴']);
        lemma_char_byte_len('🬴');
    }
    push_entry(entries, "🬴", 0b11_10_11);
    proof {
        reveal_strlit("🬵");
        assert("🬵"@ =~= seq!['🬵']);
        lemma_char_byte_len('🬵');
    }
    push_entry(entries, "🬵", 0b00_01_11);
    proof {
        reveal_strlit("🬶");
        assert("🬶"@ =~= seq!['🬶']);
        lemma_char_byte_len('🬶');
    }
    push_entry(entries, "🬶", 0b10_01_11);
    proof {
        reveal_strlit("🬷");
        assert("🬷"@ =~= seq!['🬷']);
        lemma_char_byte_len('🬷');
    }
    push_entry(entries, "🬷", 0b01_01_11);
    proof {
        reveal_strlit("🬸");
        assert("🬸"@ =~= seq!['🬸']);
        lemma_char_byte_len('🬸');
    }
    push_entry(entries, "🬸", 0b11_01_11);
    proof {
        reveal_strlit("🬹");
        assert("🬹"@ =~= seq!['🬹']);
        lemma_char_byte_len('🬹');
    }
    push_entry(entries, "🬹", 0b00_11_11);
    proof {
        reveal_strlit("🬺");
        assert("🬺"@ =~= seq!['🬺']);
        lemma_char_byte_len('🬺');
    }
    push_entry(entries, "🬺", 0b10_11_11);
    proof {
        reveal_strlit("🬻");
        assert("🬻"@ =~= seq!['🬻']);
        lemma_char_byte_len('🬻');
    }
    push_entry(entries, "🬻", 0b01_11_11);
    proof {
        assert(catalog_view(entries@) =~= catalog_view(old(entries)@) + ms_2x3_catalog_5());
    }
}

/// Marching-square line art over a 2 by 3 block with one shared pixel
/// column and row between adjacent blocks, so glyph outlines connect.
pub fn glyph_set_ms_2x3() -> (r: IndexedGlyphSet)
    ensures
        r.inv(),
        r.spec_mask_dims() == (2usize, 3usize),
        r.spec_mask_overlap() == (1usize, 1usize),
        r.spec_max_glyph_len() == 4,
        // the table is built from this set's own catalog: an exact pattern
        // resolves to its earliest-listed glyph, and every fragment shows
        // some catalog glyph
        forall|j: int|
            0 <= j < ms_2x3_catalog().len() && first_with_pattern(ms_2x3_catalog(), 6, j) ==> r.spec_glyph(
                decode_spec((#[trigger] ms_2x3_catalog()[j]).pattern, 6) as Fragment,
            ) == ms_2x3_catalog()[j].glyph,
        forall|f: Fragment|
            f < crate::glyphsets::frag_count(2, 3) ==> #[trigger] in_catalog(
                ms_2x3_catalog(),
                r.spec_glyph(f),
            ),
{
    let mut entries: Vec<CatalogEntry> = Vec::new();
    proof {
        assert(catalog_view(entries@) =~= Seq::<GlyphPattern>::empty());
    }
    ms_2x3_entries_0(&mut entries);
    ms_2x3_entries_1(&mut entries);
    ms_2x3_entries_2(&mut entries);
    ms_2x3_entries_3(&mut entries);
    ms_2x3_entries_4(&mut entries);
    ms_2x3_entries_5(&mut entries);
    proof {
        assert(catalog_view(entries@) =~= ms_2x3_catalog());
    }
    let r = IndexedGlyphSet::from_catalog([2, 3], [1, 1], &entries);
    proof {
        assert forall|j: int|
            0 <= j < ms_2x3_catalog().len() && first_with_pattern(ms_2x3_catalog(), 6, j) implies r.spec_glyph(
            decode_spec(ms_2x3_catalog()[j].pattern, 6) as Fragment,
        ) == ms_2x3_catalog()[j].glyph by {
            lemma_first_view(entries@, 6, j);
            assert(entries@[j].pattern == ms_2x3_catalog()[j].pattern);
            assert(entries@[j].glyph@ == ms_2x3_catalog()[j].glyph);
        }
        assert forall|f: Fragment| f < crate::glyphsets::frag_count(2, 3) implies #[trigger] in_catalog(
            ms_2x3_catalog(),
            r.spec_glyph(f),
        ) by {
            let j = choose|j: int|
                0 <= j < entries@.len() && #[trigger] r.spec_glyph(f) == entries@[j].glyph@;
            assert(ms_2x3_catalog().len() == entries@.len());
            assert(0 <= j < ms_2x3_catalog().len() && r.spec_glyph(f) == ms_2x3_catalog()[j].glyph);
        }
    }
    r
}

/// One glyph per pixel.
pub fn glyph_set_1x1() -> (r: IndexedGlyphSet)
    ensures
        r.inv(),
        r.spec_mask_dims() == (1usize, 1usize),
        r.spec_mask_overlap() == (0usize, 0usize),
        r.spec_max_glyph_len() == 3,
        // the table is built from this set's own catalog: an exact pattern
        // resolves to its earliest-listed glyph, and every fragment shows
        // some catalog glyph
        forall|j: int|
            0 <= j < set_1x1_catalog().len() && first_with_pattern(set_1x1_catalog(), 1, j) ==> r.spec_glyph(
                decode_spec((#[trigger] set_1x1_catalog()[j]).pattern, 1) as Fragment,
            ) == set_1x1_catalog()[j].glyph,
        forall|f: Fragment|
            f < crate::glyphsets::frag_count(1, 1) ==> #[trigger] in_catalog(
                set_1x1_catalog(),
                r.spec_glyph(f),
            ),
{
    let mut entries: Vec<CatalogEntry> = Vec::new();
    proof {
        assert(catalog_view(entries@) =~= Seq::<GlyphPattern>::empty());
    }
    proof {
        reveal_strlit("█");
        assert("█"@ =~= seq!['█']);
        lemma_char_byte_len('█');
    }
    push_entry(&mut entries, "█", 0b1);
    proof {
        reveal_strlit(" ");
        assert(" "@ =~= seq![' ']);
        lemma_char_byte_len(' ');
    }
    push_entry(&mut entries, " ", 0b0);
    proof {
        assert(catalog_view(entries@) =~= set_1x1_catalog());
    }
    let r = IndexedGlyphSet::from_catalog([1, 1], [0, 0], &entries);
    proof {
        assert forall|j: int|
            0 <= j < set_1x1_catalog().len() && first_with_pattern(set_1x1_catalog(), 1, j) implies r.spec_glyph(
            decode_spec(set_1x1_catalog()[j].pattern, 1) as Fragment,
        ) == set_1x1_catalog()[j].glyph by {
            lemma_first_view(entries@, 1, j);
            assert(entries@[j].pattern == set_1x1_catalog()[j].pattern);
            assert(entries@[j].glyph@ == set_1x1_catalog()[j].glyph);
        }
        assert forall|f: Fragment| f < crate::glyphsets::frag_count(1, 1) implies #[trigger] in_catalog(
            set_1x1_catalog(),
            r.spec_glyph(f),
        ) by {
            let j = choose|j: int|
                0 <= j < entries@.len() && #[trigger] r.spec_glyph(f) == entries@[j].glyph@;
            assert(set_1x1_catalog().len() == entries@.len());
            assert(0 <= j < set_1x1_catalog().len() && r.spec_glyph(f) == set_1x1_catalog()[j].glyph);
        }
    }
    r
}

/// Half-height blocks over a 1 by 2 block.
pub fn glyph_set_1x2() -> (r: IndexedGlyphSet)
    ensures
        r.inv(),
        r.spec_mask_dims() == (1usize, 2usize),
        r.spec_mask_overlap() == (0usize, 0usize),
        r.spec_max_glyph_len() == 4,
        // the table is built from this set's own catalog: an exact pattern
        // resolves to its earliest-listed glyph, and every fragment shows
        // some catalog glyph
        forall|j: int|
            0 <= j < set_1x2_catalog().len() && first_with_pattern(set_1x2_catalog(), 2, j) ==> r.spec_glyph(
                decode_spec((#[trigger] set_1x2_catalog()[j]).pattern, 2) as Fragment,
            ) == set_1x2_catalog()[j].glyph,
        forall|f: Fragment|
            f < crate::glyphsets::frag_count(1, 2) ==> #[trigger] in_catalog(
                set_1x2_catalog(),
                r.spec_glyph(f),
            ),
{
    let mut entries: Vec<CatalogEntry> = Vec::new();
    proof {
        assert(catalog_view(entries@) =~= Seq::<GlyphPattern>::empty());
    }
    proof {
        reveal_strlit("█");
        assert("█"@ =~= seq!['█']);
        lemma_char_byte_len('█');
    }
    push_entry(&mut entries, "█", 0b1_1);
    proof {
        reveal_strlit(" ");
        assert(" "@ =~= seq![' ']);
        lemma_char_byte_len(' ');
    }
    push_entry(&mut entries, " ", 0b0_0);
    proof {
        reveal_strlit("🬎");
        assert("🬎"@ =~= seq!['🬎']);
        lemma_char_byte_len('🬎');
    }
    push_entry(&mut entries, "🬎", 0b1_0);
    proof {
        reveal_strlit("🬹");
        assert("🬹"@ =~= seq!['🬹']);
        lemma_char_byte_len('🬹');
    }
    push_entry(&mut entries, "🬹", 0b0_1);
    proof {
        assert(catalog_view(entries@) =~= set_1x2_catalog());
    }
    let r = IndexedGlyphSet::from_catalog([1, 2], [0, 0], &entries);
    proof {
        assert forall|j: int|
            0 <= j < set_1x2_catalog().len() && first_with_pattern(set_1x2_catalog(), 2, j) implies r.spec_glyph(
            decode_spec(set_1x2_catalog()[j].pattern, 2) as Fragment,
        ) == set_1x2_catalog()[j].glyph by {
            lemma_first_view(entries@, 2, j);
            assert(entries@[j].pattern == set_1x2_catalog()[j].pattern);
            assert(entries@[j].glyph@ == set_1x2_catalog()[j].glyph);
        }
        assert forall|f: Fragment| f < crate::glyphsets::frag_count(1, 2) implies #[trigger] in_catalog(
            set_1x2_catalog(),
            r.spec_glyph(f),
        ) by {
            let j = choose|j: int|
                0 <= j < entries@.len() && #[trigger] r.spec_glyph(f) == entries@[j].glyph@;
            assert(set_1x2_catalog().len() == entries@.len());
            assert(0 <= j < set_1x2_catalog().len() && r.spec_glyph(f) == set_1x2_catalog()[j].glyph);
        }
    }
    r
}

/// Quadrant block elements over a 2 by 2 block.
pub fn glyph_set_2x2() -> (r: IndexedGlyphSet)
    ensures
        r.inv(),
        r.spec_mask_dims() == (2usize, 2usize),
        r.spec_mask_overlap() == (0usize, 0usize),
        r.spec_max_glyph_len() == 4,
        // the table is built from this set's own catalog: an exact pattern
        // resolves to its earliest-listed glyph, and every fragment shows
        // some catalog glyph
        forall|j: int|
            0 <= j < set_2x2_catalog().len() && first_with_pattern(set_2x2_catalog(), 4, j) ==> r.spec_glyph(
                decode_spec((#[trigger] set_2x2_catalog()[j]).pattern, 4) as Fragment,
            ) == set_2x2_catalog()[j].glyph,
        forall|f: Fragment|
            f < crate::glyphsets::frag_count(2, 2) ==> #[trigger] in_catalog(
                set_2x2_catalog(),
                r.spec_glyph(f),
            ),
{
    let mut entries: Vec<CatalogEntry> = Vec::new();
    proof {
        assert(catalog_view(entries@) =~= Seq::<GlyphPattern>::empty());
    }
    proof {
        reveal_strlit("█");
        assert("█"@ =~= seq!['█']);
        lemma_char_byte_len('█');
    }
    push_entry(&mut entries, "█", 0b11_11);
    proof {
        reveal_strlit("▖");
        assert("▖"@ =~= seq!['▖']);
        lemma_char_byte_len('▖');
    }
    push_entry(&mut entries, "▖", 0b00_10);
    proof {
        reveal_strlit("▗");
        assert("▗"@ =~= seq!['▗']);
        lemma_char_byte_len('▗');
    }
    push_entry(&mut entries, "▗", 0b00_01);
    proof {
        reveal_strlit("▘");
        assert("▘"@ =~= seq!['▘']);
        lemma_char_byte_len('▘');
    }
    push_entry(&mut entries, "▘", 0b10_00);
    proof {
        reveal_strlit("▙");
        assert("▙"@ =~= seq!['▙']);
        lemma_char_byte_len('▙');
    }
    push_entry(&mut entries, "▙", 0b10_11);
    proof {
        reveal_strlit("▚");
        assert("▚"@ =~= seq!['▚']);
        lemma_char_byte_len('▚');
    }
    push_entry(&mut entries, "▚", 0b10_01);
    proof {
        reveal_strlit("▛");
        assert("▛"@ =~= seq!['▛']);
        lemma_char_byte_len('▛');
    }
    push_entry(&mut entries, "▛", 0b11_10);
    proof {
        reveal_strlit("▜");
        assert("▜"@ =~= seq!['▜']);
        lemma_char_byte_len('▜');
    }
    push_entry(&mut entries, "▜", 0b11_01);
    proof {
        reveal_strlit("▝");
        assert("▝"@ =~= seq!['▝']);
        lemma_char_byte_len('▝');
    }
    push_entry(&mut entries, "▝", 0b01_00);
    proof {
        reveal_strlit("▞");
        assert("▞"@ =~= seq!['▞']);
        lemma_char_byte_len('▞');
    }
    push_entry(&mut entries, "▞", 0b01_10);
    proof {
        reveal_strlit("▟");
        assert("▟"@ =~= seq!['▟']);
        lemma_char_byte_len('▟');
    }
    push_entry(&mut entries, "▟", 0b01_11);
    proof {
        reveal_strlit(" ");
        assert(" "@ =~= seq![' ']);
        lemma_char_byte_len(' ');
    }
    push_entry(&mut entries, " ", 0b00_00);
    proof {
        reveal_strlit("🬎");
        assert("🬎"@ =~= seq!['🬎']);
        lemma_char_byte_len('🬎');
    }
    push_entry(&mut entries, "🬎", 0b11_00);
    proof {
        reveal_strlit("🬹");
        assert("🬹"@ =~= seq!['🬹']);
        lemma_char_byte_len('🬹');
    }
    push_entry(&mut entries, "🬹", 0b00_11);
    proof {
        reveal_strlit("▌");
        assert("▌"@ =~= seq!['▌']);
        lemma_char_byte_len('▌');
    }
    push_entry(&mut entries, "▌", 0b10_10);
    proof {
        reveal_strlit("▐");
        assert("▐"@ =~= seq!['▐']);
        lemma_char_byte_len('▐');
    }
    push_entry(&mut entries, "▐", 0b01_01);
    proof {
        assert(catalog_view(entries@) =~= set_2x2_catalog());
    }
    let r = IndexedGlyphSet::from_catalog([2, 2], [0, 0], &entries);
    proof {
        assert forall|j: int|
            0 <= j < set_2x2_catalog().len() && first_with_pattern(set_2x2_catalog(), 4, j) implies r.spec_glyph(
            decode_spec(set_2x2_catalog()[j].pattern, 4) as Fragment,
        ) == set_2x2_catalog()[j].glyph by {
            lemma_first_view(entries@, 4, j);
            assert(entries@[j].pattern == set_2x2_catalog()[j].pattern);
            assert(entries@[j].glyph@ == set_2x2_catalog()[j].glyph);
        }
        assert forall|f: Fragment| f < crate::glyphsets::frag_count(2, 2) implies #[trigger] in_catalog(
            set_2x2_catalog(),
            r.spec_glyph(f),
        ) by {
            let j = choose|j: int|
                0 <= j < entries@.len() && #[trigger] r.spec_glyph(f) == entries@[j].glyph@;
            assert(set_2x2_catalog().len() == entries@.len());
            assert(0 <= j < set_2x2_catalog().len() && r.spec_glyph(f) == set_2x2_catalog()[j].glyph);
        }
    }
    r
}

/// Appends piece 0 of the set 2x3 catalog.
fn set_2x3_entries_0(entries: &mut Vec<CatalogEntry>)
    requires
        forall|j: int|
            0 <= j < old(entries)@.len() ==> (#[trigger] old(entries)@[j].glyph)@.len() >= 1,
        catalog_max_len(old(entries)@) == 0,
    ensures
        final(entries)@.len() == old(entries)@.len() + 16,
        forall|j: int|
            0 <= j < final(entries)@.len() ==> (#[trigger] final(entries)@[j].glyph)@.len() >= 1,
        catalog_view(final(entries)@) == catalog_view(old(entries)@) + set_2x3_catalog_0(),
        catalog_max_len(final(entries)@) == 4,
{
    proof {
        reveal_strlit("█");
        assert("█"@ =~= seq!['█']);
        lemma_char_byte_len('█');
    }
    push_entry(entries, "█", 0b11_11_11);
    proof {
        reveal_strlit(" ");
        assert(" "@ =~= seq![' ']);
        lemma_char_byte_len(' ');
    }
    push_entry(entries, " ", 0b00_00_00);
    proof {
        reveal_strlit("🬀");
        assert("🬀"@ =~= seq!['🬀']);
        lemma_char_byte_len('🬀');
    }
    push_entry(entries, "🬀", 0b10_00_00);
    proof {
        reveal_strlit("🬁");
        assert("🬁"@ =~= seq!['🬁']);
        lemma_char_byte_len('🬁');
    }
    push_entry(entries, "🬁", 0b01_00_00);
    proof {
        reveal_strlit("🬂");
        assert("🬂"@ =~= seq!['🬂']);
        lemma_char_byte_len('🬂');
    }
    push_entry(entries, "🬂", 0b11_00_00);
    proof {
        reveal_strlit("🬃");
        assert("🬃"@ =~= seq!['🬃']);
        lemma_char_byte_len('🬃');
    }
    push_entry(entries, "🬃", 0b00_10_00);
    proof {
        reveal_strlit("🬄");
        assert("🬄"@ =~= seq!['🬄']);
        lemma_char_byte_len('🬄');
    }
    push_entry(entries, "🬄", 0b10_10_00);
    proof {
        reveal_strlit("🬅");
        assert("🬅"@ =~= seq!['🬅']);
        lemma_char_byte_len('🬅');
    }
    push_entry(entries, "🬅", 0b01_10_00);
    proof {
        reveal_strlit("🬆");
        assert("🬆"@ =~= seq!['🬆']);
        lemma_char_byte_len('🬆');
    }
    push_entry(entries, "🬆", 0b11_10_00);
    proof {
        reveal_strlit("🬇");
        assert("🬇"@ =~= seq!['🬇']);
        lemma_char_byte_len('🬇');
    }
    push_entry(entries, "🬇", 0b00_01_00);
    proof {
        reveal_strlit("🬈");
        assert("🬈"@ =~= seq!['🬈']);
        lemma_char_byte_len('🬈');
    }
    push_entry(entries, "🬈", 0b10_01_00);
    proof {
        reveal_strlit("🬉");
        assert("🬉"@ =~= seq!['🬉']);
        lemma_char_byte_len('🬉');
    }
    push_entry(entries, "🬉", 0b01_01_00);
    proof {
        reveal_strlit("🬊");
        assert("🬊"@ =~= seq!['🬊']);
        lemma_char_byte_len('🬊');
    }
    push_entry(entries, "🬊", 0b11_01_00);
    proof {
        reveal_strlit("🬋");
        assert("🬋"@ =~= seq!['🬋']);
        lemma_char_byte_len('🬋');
    }
    push_entry(entries, "🬋", 0b00_11_00);
    proof {
        reveal_strlit("🬌");
        assert("🬌"@ =~= seq!['🬌']);
        lemma_char_byte_len('🬌');
    }
    push_entry(entries, "🬌", 0b10_11_00);
    proof {
        reveal_strlit("🬍");
        assert("🬍"@ =~= seq!['🬍']);
        lemma_char_byte_len('🬍');
    }
    push_entry(entries, "🬍", 0b01_11_00);
    proof {
        assert(catalog_view(entries@) =~= catalog_view(old(entries)@) + set_2x3_catalog_0());
    }
}

/// Appends piece 1 of the set 2x3 catalog.
fn set_2x3_entries_1(entries: &mut Vec<CatalogEntry>)
    requires
        forall|j: int|
            0 <= j < old(entries)@.len() ==> (#[trigger] old(entries)@[j].glyph)@.len() >= 1,
        catalog_max_len(old(entries)@) == 4,
    ensures
        final(entries)@.len() == old(entries)@.len() + 16,
        forall|j: int|
            0 <= j < final(entries)@.len() ==> (#[trigger] final(entries)@[j].glyph)@.len() >= 1,
        catalog_view(final(entries)@) == catalog_view(old(entries)@) + set_2x3_catalog_1(),
        catalog_max_len(final(entries)@) == 4,
{
    proof {
        reveal_strlit("🬎");
        assert("🬎"@ =~= seq!['🬎']);
        lemma_char_byte_len('🬎');
    }
    push_entry(entries, "🬎", 0b11_11_00);
    proof {
        reveal_strlit("🬏");
        assert("🬏"@ =~= seq!['🬏']);
        lemma_char_byte_len('🬏');
    }
    push_entry(entries, "🬏", 0b00_00_10);
    proof {
        reveal_strlit("🬐");
        assert("🬐"@ =~= seq!['🬐']);
        lemma_char_byte_len('🬐');
    }
    push_entry(entries, "🬐", 0b10_00_10);
    proof {
        reveal_strlit("🬑");
        assert("🬑"@ =~= seq!['🬑']);
        lemma_char_byte_len('🬑');
    }
    push_entry(entries, "🬑", 0b01_00_10);
    proof {
        reveal_strlit("🬒");
        assert("🬒"@ =~= seq!['🬒']);
        lemma_char_byte_len('🬒');
    }
    push_entry(entries, "🬒", 0b11_00_10);
    proof {
        reveal_strlit("🬓");
        assert("🬓"@ =~= seq!['🬓']);
        lemma_char_byte_len('🬓');
    }
    push_entry(entries, "🬓", 0b00_10_10);
    proof {
        reveal_strlit("▌");
        assert("▌"@ =~= seq!['▌']);
        lemma_char_byte_len('▌');
    }
    push_entry(entries, "▌", 0b10_10_10);
    proof {
        reveal_strlit("🬔");
        assert("🬔"@ =~= seq!['🬔']);
        lemma_char_byte_len('🬔');
    }
    push_entry(entries, "🬔", 0b01_10_10);
    proof {
        reveal_strlit("🬕");
        assert("🬕"@ =~= seq!['🬕']);
        lemma_char_byte_len('🬕');
    }
    push_entry(entries, "🬕", 0b11_10_10);
    proof {
        reveal_strlit("🬖");
        assert("🬖"@ =~= seq!['🬖']);
        lemma_char_byte_len('🬖');
    }
    push_entry(entries, "🬖", 0b00_01_10);
    proof {
        reveal_strlit("🬗");
        assert("🬗"@ =~= seq!['🬗']);
        lemma_char_byte_len('🬗');
    }
    push_entry(entries, "🬗", 0b10_01_10);
    proof {
        reveal_strlit("🬘");
        assert("🬘"@ =~= seq!['🬘']);
        lemma_char_byte_len('🬘');
    }
    push_entry(entries, "🬘", 0b01_01_10);
    proof {
        reveal_strlit("🬙");
        assert("🬙"@ =~= seq!['🬙']);
        lemma_char_byte_len('🬙');
    }
    push_entry(entries, "🬙", 0b11_01_10);
    proof {
        reveal_strlit("🬚");
        assert("🬚"@ =~= seq!['🬚']);
        lemma_char_byte_len('🬚');
    }
    push_entry(entries, "🬚", 0b00_11_10);
    proof {
        reveal_strlit("🬛");
        assert("🬛"@ =~= seq!['🬛']);
        lemma_char_byte_len('🬛');
    }
    push_entry(entries, "🬛", 0b10_11_10);
    proof {
        reveal_strlit("🬜");
        assert("🬜"@ =~= seq!['🬜']);
        lemma_char_byte_len('🬜');
    }
    push_entry(entries, "🬜", 0b01_11_10);
    proof {
        assert(catalog_view(entries@) =~= catalog_view(old(entries)@) + set_2x3_catalog_1());
    }
}

/// Appends piece 2 of the set 2x3 catalog.
fn set_2x3_entries_2(entries: &mut Vec<CatalogEntry>)
    requires
        forall|j: int|
            0 <= j < old(entries)@.len() ==> (#[trigger] old(entries)@[j].glyph)@.len() >= 1,
        catalog_max_len(old(entries)@) == 4,
    ensures
        final(entries)@.len() == old(entries)@.len() + 16,
        forall|j: int|
            0 <= j < final(entries)@.len() ==> (#[trigger] final(entries)@[j].glyph)@.len() >= 1,
        catalog_view(final(entries)@) == catalog_view(old(entries)@) + set_2x3_catalog_2(),
        catalog_max_len(final(entries)@) == 4,
{
    proof {
        reveal_strlit("🬝");
        assert("🬝"@ =~= seq!['🬝']);
        lemma_char_byte_len('🬝');
    }
    push_entry(entries, "🬝", 0b11_11_10);
    proof {
        reveal_strlit("🬞");
        assert("🬞"@ =~= seq!['🬞']);
        lemma_char_byte_len('🬞');
    }
    push_entry(entries, "🬞", 0b00_00_01);
    proof {
        reveal_strlit("🬟");
        assert("🬟"@ =~= seq!['🬟']);
        lemma_char_byte_len('🬟');
    }
    push_entry(entries, "🬟", 0b10_00_01);
    proof {
        reveal_strlit("🬠");
        assert("🬠"@ =~= seq!['🬠']);
        lemma_char_byte_len('🬠');
    }
    push_entry(entries, "🬠", 0b01_00_01);
    proof {
        reveal_strlit("🬡");
        assert("🬡"@ =~= seq!['🬡']);
        lemma_char_byte_len('🬡');
    }
    push_entry(entries, "🬡", 0b11_00_01);
    proof {
        reveal_strlit("🬢");
        assert("🬢"@ =~= seq!['🬢']);
        lemma_char_byte_len('🬢');
    }
    push_entry(entries, "🬢", 0b00_10_01);
    proof {
        reveal_strlit("🬣");
        assert("🬣"@ =~= seq!['🬣']);
        lemma_char_byte_len('🬣');
    }
    push_entry(entries, "🬣", 0b10_10_01);
    proof {
        reveal_strlit("🬤");
        assert("🬤"@ =~= seq!['🬤']);
        lemma_char_byte_len('🬤');
    }
    push_entry(entries, "🬤", 0b01_10_01);
    proof {
        reveal_strlit("🬥");
        assert("🬥"@ =~= seq!['🬥']);
        lemma_char_byte_len('🬥');
    }
    push_entry(entries, "🬥", 0b11_10_01);
    proof {
        reveal_strlit("🬦");
        assert("🬦"@ =~= seq!['🬦']);
        lemma_char_byte_len('🬦');
    }
    push_entry(entries, "🬦", 0b00_01_01);
    proof {
        reveal_strlit("▐");
        assert("▐"@ =~= seq!['▐']);
        lemma_char_byte_len('▐');
    }
    push_entry(entries, "▐", 0b01_01_01);
    proof {
        reveal_strlit("🬧");
        assert("🬧"@ =~= seq!['🬧']);
        lemma_char_byte_len('🬧');
    }
    push_entry(entries, "🬧", 0b10_01_01);
    proof {
        reveal_strlit("🬨");
        assert("🬨"@ =~= seq!['🬨']);
        lemma_char_byte_len('🬨');
    }
    push_entry(entries, "🬨", 0b11_01_01);
    proof {
        reveal_strlit("🬩");
        assert("🬩"@ =~= seq!['🬩']);
        lemma_char_byte_len('🬩');
    }
    push_entry(entries, "🬩", 0b00_11_01);
    proof {
        reveal_strlit("🬪");
        assert("🬪"@ =~= seq!['🬪']);
        lemma_char_byte_len('🬪');
    }
    push_entry(entries, "🬪", 0b10_11_01);
    proof {
        reveal_strlit("🬫");
        assert("🬫"@ =~= seq!['🬫']);
        lemma_char_byte_len('🬫');
    }
    push_entry(entries, "🬫", 0b01_11_01);
    proof {
        assert(catalog_view(entries@) =~= catalog_view(old(entries)@) + set_2x3_catalog_2());
    }
}

/// Appends piece 3 of the set 2x3 catalog.
fn set_2x3_entries_3(entries: &mut Vec<CatalogEntry>)
    requires
        forall|j: int|
            0 <= j < old(entries)@.len() ==> (#[trigger] old(entries)@[j].glyph)@.len() >= 1,
        catalog_max_len(old(entries)@) == 4,
    ensures
        final(entries)@.len() == old(entries)@.len() + 16,
        forall|j: int|
            0 <= j < final(entries)@.len() ==> (#[trigger] final(entries)@[j].glyph)@.len() >= 1,
        catalog_view(final(entries)@) == catalog_view(old(entries)@) + set_2x3_catalog_3(),
        catalog_max_len(final(entries)@) == 4,
{
    proof {
        reveal_strlit("🬬");
        assert("🬬"@ =~= seq!['🬬']);
        lemma_char_byte_len('🬬');
    }
    push_entry(entries, "🬬", 0b11_11_01);
    proof {
        reveal_strlit("🬭");
        assert("🬭"@ =~= seq!['🬭']);
        lemma_char_byte_len('🬭');
    }
    push_entry(entries, "🬭", 0b00_00_11);
    proof {
        reveal_strlit("🬮");
        assert("🬮"@ =~= seq!['🬮']);
        lemma_char_byte_len('🬮');
    }
    push_entry(entries, "🬮", 0b10_00_11);
    proof {
        reveal_strlit("🬯");
        assert("🬯"@ =~= seq!['🬯']);
        lemma_char_byte_len('🬯');
    }
    push_entry(entries, "🬯", 0b01_00_11);
    proof {
        reveal_strlit("🬰");
        assert("🬰"@ =~= seq!['🬰']);
        lemma_char_byte_len('🬰');
    }
    push_entry(entries, "🬰", 0b11_00_11);
    proof {
        reveal_strlit("🬱");
        assert("🬱"@ =~= seq!['🬱']);
        lemma_char_byte_len('🬱');
    }
    push_entry(entries, "🬱", 0b00_10_11);
    proof {
        reveal_strlit("🬲");
        assert("🬲"@ =~= seq!['🬲']);
        lemma_char_byte_len('🬲');
    }
    push_entry(entries, "🬲", 0b10_10_11);
    proof {
        reveal_strlit("🬳");
        assert("🬳"@ =~= seq!['🬳']);
        lemma_char_byte_len('🬳');
    }
    push_entry(entries, "🬳", 0b01_10_11);
    proof {
        reveal_strlit("🬴");
        assert("🬴"@ =~= seq!['🬴']);
        lemma_char_byte_len('🬴');
    }
    push_entry(entries, "🬴", 0b11_10_11);
    proof {
        reveal_strlit("🬵");
        assert("🬵"@ =~= seq!['🬵']);
        lemma_char_byte_len('🬵');
    }
    push_entry(entries, "🬵", 0b00_01_11);
    proof {
        reveal_strlit("🬶");
        assert("🬶"@ =~= seq!['🬶']);
        lemma_char_byte_len('🬶');
    }
    push_entry(entries, "🬶", 0b10_01_11);
    proof {
        reveal_strlit("🬷");
        assert("🬷"@ =~= seq!['🬷']);
        lemma_char_byte_len('🬷');
    }
    push_entry(entries, "🬷", 0b01_01_11);
    proof {
        reveal_strlit("🬸");
        assert("🬸"@ =~= seq!['🬸']);
        lemma_char_byte_len('🬸');
    }
    push_entry(entries, "🬸", 0b11_01_11);
    proof {
        reveal_strlit("🬹");
        assert("🬹"@ =~= seq!['🬹']);
        lemma_char_byte_len('🬹');
    }
    push_entry(entries, "🬹", 0b00_11_11);
    proof {
        reveal_strlit("🬺");
        assert("🬺"@ =~= seq!['🬺']);
        lemma_char_byte_len('🬺');
    }
    push_entry(entries, "🬺", 0b10_11_11);
    proof {
        reveal_strlit("🬻");
        assert("🬻"@ =~= seq!['🬻']);
        lemma_char_byte_len('🬻');
    }
    push_entry(entries, "🬻", 0b01_11_11);
    proof {
        assert(catalog_view(entries@) =~= catalog_view(old(entries)@) + set_2x3_catalog_3());
    }
}

/// Sextant block elements over a 2 by 3 block.
pub fn glyph_set_2x3() -> (r: IndexedGlyphSet)
    ensures
        r.inv(),
        r.spec_mask_dims() == (2usize, 3usize),
        r.spec_mask_overlap() == (0usize, 0usize),
        r.spec_max_glyph_len() == 4,
        // the table is built from this set's own catalog: an exact pattern
        // resolves to its earliest-listed glyph, and every fragment shows
        // some catalog glyph
        forall|j: int|
            0 <= j < set_2x3_catalog().len() && first_with_pattern(set_2x3_catalog(), 6, j) ==> r.spec_glyph(
                decode_spec((#[trigger] set_2x3_catalog()[j]).pattern, 6) as Fragment,
            ) == set_2x3_catalog()[j].glyph,
        forall|f: Fragment|
            f < crate::glyphsets::frag_count(2, 3) ==> #[trigger] in_catalog(
                set_2x3_catalog(),
                r.spec_glyph(f),
            ),
{
    let mut entries: Vec<CatalogEntry> = Vec::new();
    proof {
        assert(catalog_view(entries@) =~= Seq::<GlyphPattern>::empty());
    }
    set_2x3_entries_0(&mut entries);
    set_2x3_entries_1(&mut entries);
    set_2x3_entries_2(&mut entries);
    set_2x3_entries_3(&mut entries);
    proof {
        assert(catalog_view(entries@) =~= set_2x3_catalog());
    }
    let r = IndexedGlyphSet::from_catalog([2, 3], [0, 0], &entries);
    proof {
        assert forall|j: int|
            0 <= j < set_2x3_catalog().len() && first_with_pattern(set_2x3_catalog(), 6, j) implies r.spec_glyph(
            decode_spec(set_2x3_catalog()[j].pattern, 6) as Fragment,
        ) == set_2x3_catalog()[j].glyph by {
            lemma_first_view(entries@, 6, j);
            assert(entries@[j].pattern == set_2x3_catalog()[j].pattern);
            assert(entries@[j].glyph@ == set_2x3_catalog()[j].glyph);
        }
        assert forall|f: Fragment| f < crate::glyphsets::frag_count(2, 3) implies #[trigger] in_catalog(
            set_2x3_catalog(),
            r.spec_glyph(f),
        ) by {
            let j = choose|j: int|
                0 <= j < entries@.len() && #[trigger] r.spec_glyph(f) == entries@[j].glyph@;
            assert(set_2x3_catalog().len() == entries@.len());
            assert(0 <= j < set_2x3_catalog().len() && r.spec_glyph(f) == set_2x3_catalog()[j].glyph);
        }
    }
    r
}

} // verus!
