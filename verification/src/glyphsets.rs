//! The glyph-set abstraction: block geometry plus a total mapping from
//! fragments to glyph text.
use vstd::arithmetic::power2::pow2;
use vstd::prelude::*;

use crate::index::{
    build_index, decode_spec, glyphs_ok, is_first_pattern, lemma_decode_bound, CatalogEntry,
    IndexEntry,
};
use crate::Fragment;

verus! {

/// Geometry constraints every usable glyph set satisfies: non-degenerate
/// block dimensions, an overlap that never consumes a whole block, and a
/// block small enough that its fragments index a dense table.
pub open spec fn geom_wf(w: usize, h: usize, ow: usize, oh: usize) -> bool {
    &&& 1 <= w
    &&& 1 <= h
    &&& ow < w
    &&& oh < h
    &&& w * h <= 9
}

/// Number of distinct fragment values for a `w` by `h` block.
pub open spec fn frag_count(w: usize, h: usize) -> nat {
    pow2((w * h) as nat)
}

/// A set of output glyphs (string fragments) that are associated with
/// expected input image patterns.
pub trait GlyphSet: Sized {
    /// Block width and height in pixels consumed per output glyph.
    spec fn spec_mask_dims(&self) -> (usize, usize);

    /// Pixel columns and rows shared between adjacent blocks.
    spec fn spec_mask_overlap(&self) -> (usize, usize);

    /// The glyph text every in-range fragment maps to.
    spec fn spec_glyph(&self, fragment: Fragment) -> Seq<char>;

    /// Maximum byte length of any glyph string of the set.
    spec fn spec_max_glyph_len(&self) -> usize;

    /// Well-formedness of the concrete representation.
    spec fn inv(&self) -> bool;

    proof fn lemma_inv_geom(&self)
        requires
            self.inv(),
        ensures
            geom_wf(
                self.spec_mask_dims().0,
                self.spec_mask_dims().1,
                self.spec_mask_overlap().0,
                self.spec_mask_overlap().1,
            ),
    ;

    fn mask_dims(&self) -> (r: [usize; 2])
        requires
            self.inv(),
        ensures
            r[0] == self.spec_mask_dims().0,
            r[1] == self.spec_mask_dims().1,
    ;

    fn mask_overlap(&self) -> (r: [usize; 2])
        requires
            self.inv(),
        ensures
            r[0] == self.spec_mask_overlap().0,
            r[1] == self.spec_mask_overlap().1,
    ;

    /// Borrowed glyph text for one fragment; total over the fragment range
    /// and never empty.
    fn fragment_to_glyph<'a>(&'a self, fragment: Fragment) -> (r: &'a str)
        requires
            self.inv(),
            fragment < frag_count(self.spec_mask_dims().0, self.spec_mask_dims().1),
        ensures
            r@ == self.spec_glyph(fragment),
            r@.len() >= 1,
    ;

    fn max_glyph_len(&self) -> (r: usize)
        requires
            self.inv(),
        ensures
            r == self.spec_max_glyph_len(),
    ;

    /// No glyph of the set is longer, in UTF-8 bytes, than the advertised
    /// maximum.
    proof fn lemma_glyph_len(&self, fragment: Fragment)
        requires
            self.inv(),
            fragment < frag_count(self.spec_mask_dims().0, self.spec_mask_dims().1),
        ensures
            glyph_byte_len(self.spec_glyph(fragment)) <= self.spec_max_glyph_len(),
    ;
}

/// Byte length of a glyph under UTF-8.
pub open spec fn glyph_byte_len(g: Seq<char>) -> nat {
    vstd::utf8::encode_utf8(g).len()
}

/// Largest glyph byte length of a catalog.
pub open spec fn catalog_max_len(entries: Seq<CatalogEntry>) -> nat
    decreases entries.len(),
{
    if entries.len() == 0 {
        0
    } else {
        let rest = catalog_max_len(entries.drop_last());
        let last = glyph_byte_len(entries.last().glyph@);
        if last > rest {
            last
        } else {
            rest
        }
    }
}

/// UTF-8 byte length of a single character, by code-point range.
pub proof fn lemma_char_byte_len(c: char)
    ensures
        (c as u32) <= 0x7F ==> glyph_byte_len(seq![c]) == 1,
        0x80 <= (c as u32) && (c as u32) <= 0x7FF ==> glyph_byte_len(seq![c]) == 2,
        0x800 <= (c as u32) && (c as u32) <= 0xFFFF ==> glyph_byte_len(seq![c]) == 3,
        0x10000 <= (c as u32) ==> glyph_byte_len(seq![c]) == 4,
{
    vstd::utf8::char_is_scalar(c);
    assert(seq![c].drop_first() =~= Seq::<char>::empty());
    assert(vstd::utf8::encode_utf8(Seq::<char>::empty()) =~= Seq::<u8>::empty());
    assert(vstd::utf8::encode_utf8(seq![c]) =~= vstd::utf8::encode_scalar(c as u32)
        + Seq::<u8>::empty());
    assert(vstd::utf8::encode_scalar(c as u32) + Seq::<u8>::empty() =~= vstd::utf8::encode_scalar(
        c as u32,
    ));
}

pub proof fn lemma_catalog_max_len(entries: Seq<CatalogEntry>, j: int)
    requires
        0 <= j < entries.len(),
    ensures
        glyph_byte_len(entries[j].glyph@) <= catalog_max_len(entries),
    decreases entries.len(),
{
    if j < entries.len() - 1 {
        lemma_catalog_max_len(entries.drop_last(), j);
    }
}

/// One catalog line at the specification level: the glyph's text and its
/// exact bit pattern in visual writing order.
pub struct GlyphPattern {
    pub glyph: Seq<char>,
    pub pattern: u64,
}

/// The specification-level view of a built catalog.
pub open spec fn catalog_view(entries: Seq<CatalogEntry>) -> Seq<GlyphPattern> {
    Seq::new(
        entries.len(),
        |j: int| GlyphPattern { glyph: entries[j].glyph@, pattern: entries[j].pattern },
    )
}

/// `g` is the text of some line of the catalog.
pub open spec fn in_catalog(cat: Seq<GlyphPattern>, g: Seq<char>) -> bool {
    exists|j: int| 0 <= j < cat.len() && g == cat[j].glyph
}

/// Catalog line `j` is the first whose decoded pattern equals its own.
pub open spec fn first_with_pattern(cat: Seq<GlyphPattern>, wh: nat, j: int) -> bool {
    forall|k: int|
        0 <= k < j ==> decode_spec(cat[k].pattern, wh) != decode_spec(cat[j].pattern, wh)
}

pub proof fn lemma_first_view(entries: Seq<CatalogEntry>, wh: nat, j: int)
    requires
        0 <= j < entries.len(),
    ensures
        is_first_pattern(entries, wh, j) == first_with_pattern(catalog_view(entries), wh, j),
{
    if is_first_pattern(entries, wh, j) {
        assert forall|k: int| 0 <= k < j implies decode_spec(
            catalog_view(entries)[k].pattern,
            wh,
        ) != decode_spec(catalog_view(entries)[j].pattern, wh) by {
            assert(catalog_view(entries)[k].pattern == entries[k].pattern);
        }
    }
    if first_with_pattern(catalog_view(entries), wh, j) {
        assert forall|k: int| 0 <= k < j implies decode_spec(entries[k].pattern, wh)
            != decode_spec(entries[j].pattern, wh) by {
            assert(catalog_view(entries)[k].pattern == entries[k].pattern);
        }
    }
}

/// A glyph set backed by a dense table built by [`build_index`]: one glyph
/// string per fragment value.
pub struct IndexedGlyphSet {
    mask_dims: [usize; 2],
    mask_overlap: [usize; 2],
    max_glyph_len: usize,
    index: Vec<String>,
}

impl GlyphSet for IndexedGlyphSet {
    closed spec fn spec_mask_dims(&self) -> (usize, usize) {
        (self.mask_dims[0], self.mask_dims[1])
    }

    closed spec fn spec_mask_overlap(&self) -> (usize, usize) {
        (self.mask_overlap[0], self.mask_overlap[1])
    }

    closed spec fn spec_glyph(&self, fragment: Fragment) -> Seq<char> {
        self.index@[fragment as int]@
    }

    closed spec fn spec_max_glyph_len(&self) -> usize {
        self.max_glyph_len
    }

    closed spec fn inv(&self) -> bool {
        &&& geom_wf(self.mask_dims[0], self.mask_dims[1], self.mask_overlap[0], self.mask_overlap[1])
        &&& self.index@.len() == frag_count(self.mask_dims[0], self.mask_dims[1])
        &&& forall|f: int| 0 <= f < self.index@.len() ==> (#[trigger] self.index@[f])@.len() >= 1
        &&& forall|f: int|
            0 <= f < self.index@.len() ==> glyph_byte_len((#[trigger] self.index@[f])@)
                <= self.max_glyph_len
    }

    proof fn lemma_inv_geom(&self) {
    }

    proof fn lemma_glyph_len(&self, fragment: Fragment) {
    }

    fn mask_dims(&self) -> (r: [usize; 2]) {
        self.mask_dims
    }

    fn mask_overlap(&self) -> (r: [usize; 2]) {
        self.mask_overlap
    }

    fn fragment_to_glyph<'a>(&'a self, fragment: Fragment) -> (r: &'a str) {
        proof {
            vstd::arithmetic::power2::lemma2_to64();
            if ((self.mask_dims[0] * self.mask_dims[1]) as nat) < 9 {
                vstd::arithmetic::power2::lemma_pow2_strictly_increases(
                    (self.mask_dims[0] * self.mask_dims[1]) as nat,
                    9,
                );
            }
        }
        self.index[fragment as usize].as_str()
    }

    fn max_glyph_len(&self) -> (r: usize) {
        self.max_glyph_len
    }
}

impl IndexedGlyphSet {
    /// Builds a table-backed glyph set from an ordered catalog: every
    /// fragment is covered, an exact catalog pattern maps to its
    /// first-listed glyph verbatim, and every other fragment inherits the
    /// glyph of the pattern it was derived from during the search.
    pub fn from_catalog(
        mask_dims: [usize; 2],
        mask_overlap: [usize; 2],
        entries: &Vec<CatalogEntry>,
    ) -> (r: IndexedGlyphSet)
        requires
            geom_wf(mask_dims[0], mask_dims[1], mask_overlap[0], mask_overlap[1]),
            entries@.len() >= 1,
            forall|j: int| 0 <= j < entries@.len() ==> (#[trigger] entries@[j].glyph)@.len() >= 1,
        ensures
            r.inv(),
            r.spec_mask_dims() == (mask_dims[0], mask_dims[1]),
            r.spec_mask_overlap() == (mask_overlap[0], mask_overlap[1]),
            r.spec_max_glyph_len() == catalog_max_len(entries@),
            // an exact catalog pattern resolves to its earliest-listed glyph
            forall|j: int|
                0 <= j < entries@.len() && is_first_pattern(
                    entries@,
                    (mask_dims[0] * mask_dims[1]) as nat,
                    j,
                ) ==> r.spec_glyph(
                    decode_spec(
                        entries@[j].pattern,
                        (mask_dims[0] * mask_dims[1]) as nat,
                    ) as Fragment,
                ) == (#[trigger] entries@[j].glyph)@,
            // every fragment shows some catalog glyph
            forall|f: Fragment|
                f < frag_count(mask_dims[0], mask_dims[1]) ==> (exists|j: int|
                    0 <= j < entries@.len() && #[trigger] r.spec_glyph(f) == entries@[j].glyph@),
            // so no glyph is longer than the advertised maximum byte length
            forall|f: Fragment|
                f < frag_count(mask_dims[0], mask_dims[1]) ==> #[trigger] glyph_byte_len(
                    r.spec_glyph(f),
                ) <= r.spec_max_glyph_len(),
    {
        let w = mask_dims[0];
        let h = mask_dims[1];
        let wh = w * h;
        let index_tbl = build_index(w, h, entries);
        let n = index_tbl.len();
        let mut table: Vec<String> = Vec::new();
        let mut v: usize = 0;
        while v < n
            invariant
                geom_wf(w, h, mask_overlap[0], mask_overlap[1]),
                entries@.len() >= 1,
                forall|j: int|
                    0 <= j < entries@.len() ==> (#[trigger] entries@[j].glyph)@.len() >= 1,
                n == index_tbl@.len(),
                index_tbl@.len() == frag_count(w, h),
                glyphs_ok(index_tbl@, entries@.len() as nat),
                forall|u: int| 0 <= u < n ==> (#[trigger] index_tbl@[u]) is Some,
                v <= n,
                table@.len() == v,
                forall|u: int|
                    0 <= u < v ==> (#[trigger] table@[u])@ == entries@[(
                    index_tbl@[u]->Some_0).glyph_i as int].glyph@,
            decreases n - v,
        {
            let ent = index_tbl[v].unwrap();
            table.push(entries[ent.glyph_i].glyph.clone());
            v = v + 1;
        }

        let mut max_glyph_len: usize = 0;
        let mut j: usize = 0;
        while j < entries.len()
            invariant
                j <= entries@.len(),
                max_glyph_len == catalog_max_len(entries@.take(j as int)),
            decreases entries@.len() - j,
        {
            proof {
                assert(entries@.take(j as int + 1).drop_last() =~= entries@.take(j as int));
                assert(entries@.take(j as int + 1).last() == entries@[j as int]);
            }
            let l = entries[j].glyph.as_str().as_bytes().len();
            if l > max_glyph_len {
                max_glyph_len = l;
            }
            j = j + 1;
        }
        proof {
            assert(entries@.take(entries@.len() as int) =~= entries@);
        }

        proof {
            assert forall|fi: int| 0 <= fi < table@.len() implies glyph_byte_len(
                (#[trigger] table@[fi])@,
            ) <= max_glyph_len by {
                let jj = (index_tbl@[fi]->Some_0).glyph_i as int;
                assert(table@[fi]@ == entries@[jj].glyph@);
                lemma_catalog_max_len(entries@, jj);
            }
        }
        let r = IndexedGlyphSet { mask_dims, mask_overlap, max_glyph_len, index: table };
        proof {
            assert forall|f: Fragment| f < frag_count(mask_dims[0], mask_dims[1]) implies #[trigger] glyph_byte_len(
                r.spec_glyph(f),
            ) <= r.spec_max_glyph_len() by {
                assert(r.spec_glyph(f) == r.index@[f as int]@);
            }
            assert forall|jj: int|
                0 <= jj < entries@.len() && is_first_pattern(entries@, wh as nat, jj) implies r.spec_glyph(
                decode_spec(entries@[jj].pattern, wh as nat) as Fragment,
            ) == (#[trigger] entries@[jj].glyph)@ by {
                lemma_decode_bound(entries@[jj].pattern, wh as nat);
                let d = decode_spec(entries@[jj].pattern, wh as nat);
                assert(index_tbl@[d as int] == Some(
                    IndexEntry { glyph_i: jj as usize, distance: 0 },
                ));
            }
        }
        r
    }
}

/// The 256 dot-pattern glyphs, ordered by code point.
spec fn braille_pats() -> Seq<char> {
    "⠀⠁⠂⠃⠄⠅⠆⠇⠈⠉⠊⠋⠌⠍⠎⠏⠐⠑⠒⠓⠔⠕⠖⠗⠘⠙⠚⠛⠜⠝⠞⠟⠠⠡⠢⠣⠤⠥⠦⠧⠨⠩⠪⠫⠬⠭⠮⠯⠰⠱⠲⠳⠴⠵⠶⠷⠸⠹⠺⠻⠼⠽⠾⠿⡀⡁⡂⡃⡄⡅⡆⡇⡈⡉⡊⡋⡌⡍⡎⡏⡐⡑⡒⡓⡔⡕⡖⡗⡘⡙⡚⡛⡜⡝⡞⡟⡠⡡⡢⡣⡤⡥⡦⡧⡨⡩⡪⡫⡬⡭⡮⡯⡰⡱⡲⡳⡴⡵⡶⡷⡸⡹⡺⡻⡼⡽⡾⡿⢀⢁⢂⢃⢄⢅⢆⢇⢈⢉⢊⢋⢌⢍⢎⢏⢐⢑⢒⢓⢔⢕⢖⢗⢘⢙⢚⢛⢜⢝⢞⢟⢠⢡⢢⢣⢤⢥⢦⢧⢨⢩⢪⢫⢬⢭⢮⢯⢰⢱⢲⢳⢴⢵⢶⢷⢸⢹⢺⢻⢼⢽⢾⢿⣀⣁⣂⣃⣄⣅⣆⣇⣈⣉⣊⣋⣌⣍⣎⣏⣐⣑⣒⣓⣔⣕⣖⣗⣘⣙⣚⣛⣜⣝⣞⣟⣠⣡⣢⣣⣤⣥⣦⣧⣨⣩⣪⣫⣬⣭⣮⣯⣰⣱⣲⣳⣴⣵⣶⣷⣸⣹⣺⣻⣼⣽⣾⣿"@
}

/// Remaps the engine's row-major fragment bit order of a 2 by 4 block to
/// the dot numbering the pre-rendered glyph table is ordered by: bit
/// positions 1 to 4 move, the other four pass through unchanged.
pub open spec fn braille_remap(f: u64) -> u64 {
    (f & 0xE1) | (((f >> 2) & 1) << 1) | (((f >> 4) & 1) << 2) | (((f >> 1) & 1) << 3) | (((f >> 3)
        & 1) << 4)
}

/// The 16-entry nibble table of [`braille_remap`] folded into one integer:
/// nibble `b` holds the remapped value of the four moving bits.
pub const BRAILLE_REMAP_LUT: u64 = 0xFBEA7362D9C85140;

/// The closed-form 8-dot pattern glyph set over a 2 by 4 block; glyphs are
/// sliced out of one pre-rendered string of all 256 patterns.
pub struct Braille8GlyphSet {
}

impl GlyphSet for Braille8GlyphSet {
    closed spec fn spec_mask_dims(&self) -> (usize, usize) {
        (2usize, 4usize)
    }

    closed spec fn spec_mask_overlap(&self) -> (usize, usize) {
        (0usize, 0usize)
    }

    closed spec fn spec_glyph(&self, fragment: Fragment) -> Seq<char> {
        braille_pats().subrange(braille_remap(fragment) as int, braille_remap(fragment) as int + 1)
    }

    closed spec fn spec_max_glyph_len(&self) -> usize {
        glyph_byte_len("⣿"@) as usize
    }

    closed spec fn inv(&self) -> bool {
        true
    }

    proof fn lemma_inv_geom(&self) {
    }

    proof fn lemma_glyph_len(&self, fragment: Fragment) {
        lemma_braille_glyph_byte_len(*self, fragment);
    }

    fn mask_dims(&self) -> (r: [usize; 2]) {
        [2, 4]
    }

    fn mask_overlap(&self) -> (r: [usize; 2]) {
        [0, 0]
    }

    fn fragment_to_glyph<'a>(&'a self, fragment: Fragment) -> (r: &'a str) {
        let pats = "⠀⠁⠂⠃⠄⠅⠆⠇⠈⠉⠊⠋⠌⠍⠎⠏⠐⠑⠒⠓⠔⠕⠖⠗⠘⠙⠚⠛⠜⠝⠞⠟⠠⠡⠢⠣⠤⠥⠦⠧⠨⠩⠪⠫⠬⠭⠮⠯⠰⠱⠲⠳⠴⠵⠶⠷⠸⠹⠺⠻⠼⠽⠾⠿⡀⡁⡂⡃⡄⡅⡆⡇⡈⡉⡊⡋⡌⡍⡎⡏⡐⡑⡒⡓⡔⡕⡖⡗⡘⡙⡚⡛⡜⡝⡞⡟⡠⡡⡢⡣⡤⡥⡦⡧⡨⡩⡪⡫⡬⡭⡮⡯⡰⡱⡲⡳⡴⡵⡶⡷⡸⡹⡺⡻⡼⡽⡾⡿⢀⢁⢂⢃⢄⢅⢆⢇⢈⢉⢊⢋⢌⢍⢎⢏⢐⢑⢒⢓⢔⢕⢖⢗⢘⢙⢚⢛⢜⢝⢞⢟⢠⢡⢢⢣⢤⢥⢦⢧⢨⢩⢪⢫⢬⢭⢮⢯⢰⢱⢲⢳⢴⢵⢶⢷⢸⢹⢺⢻⢼⢽⢾⢿⣀⣁⣂⣃⣄⣅⣆⣇⣈⣉⣊⣋⣌⣍⣎⣏⣐⣑⣒⣓⣔⣕⣖⣗⣘⣙⣚⣛⣜⣝⣞⣟⣠⣡⣢⣣⣤⣥⣦⣧⣨⣩⣪⣫⣬⣭⣮⣯⣰⣱⣲⣳⣴⣵⣶⣷⣸⣹⣺⣻⣼⣽⣾⣿";
        let b4321 = (fragment & 0b0001_1110) >> 1;
        proof {
            assert(b4321 <= 15) by (bit_vector)
                requires
                    b4321 == (fragment & 0b0001_1110) >> 1u64,
            ;
        }
        let uni = (fragment & 0b1110_0001) | (((BRAILLE_REMAP_LUT >> (b4321 * 4)) & 0xF) << 1);
        proof {
            assert(uni == braille_remap(fragment) && uni < 256) by (bit_vector)
                requires
                    b4321 == (fragment & 0b0001_1110) >> 1u64,
                    uni == (fragment & 0b1110_0001) | (((0xFBEA7362D9C85140u64 >> (b4321 * 4))
                        & 0xF) << 1),
            ;
            reveal_strlit("⠀⠁⠂⠃⠄⠅⠆⠇⠈⠉⠊⠋⠌⠍⠎⠏⠐⠑⠒⠓⠔⠕⠖⠗⠘⠙⠚⠛⠜⠝⠞⠟⠠⠡⠢⠣⠤⠥⠦⠧⠨⠩⠪⠫⠬⠭⠮⠯⠰⠱⠲⠳⠴⠵⠶⠷⠸⠹⠺⠻⠼⠽⠾⠿⡀⡁⡂⡃⡄⡅⡆⡇⡈⡉⡊⡋⡌⡍⡎⡏⡐⡑⡒⡓⡔⡕⡖⡗⡘⡙⡚⡛⡜⡝⡞⡟⡠⡡⡢⡣⡤⡥⡦⡧⡨⡩⡪⡫⡬⡭⡮⡯⡰⡱⡲⡳⡴⡵⡶⡷⡸⡹⡺⡻⡼⡽⡾⡿⢀⢁⢂⢃⢄⢅⢆⢇⢈⢉⢊⢋⢌⢍⢎⢏⢐⢑⢒⢓⢔⢕⢖⢗⢘⢙⢚⢛⢜⢝⢞⢟⢠⢡⢢⢣⢤⢥⢦⢧⢨⢩⢪⢫⢬⢭⢮⢯⢰⢱⢲⢳⢴⢵⢶⢷⢸⢹⢺⢻⢼⢽⢾⢿⣀⣁⣂⣃⣄⣅⣆⣇⣈⣉⣊⣋⣌⣍⣎⣏⣐⣑⣒⣓⣔⣕⣖⣗⣘⣙⣚⣛⣜⣝⣞⣟⣠⣡⣢⣣⣤⣥⣦⣧⣨⣩⣪⣫⣬⣭⣮⣯⣰⣱⣲⣳⣴⣵⣶⣷⣸⣹⣺⣻⣼⣽⣾⣿");
            assert(pats@.len() == 256);
        }
        let g = pats.substring_char(uni as usize, (uni as usize) + 1);
        g
    }

    fn max_glyph_len(&self) -> (r: usize) {
        "⣿".len()
    }
}

proof fn lemma_braille_pats_codepoint_a(u: int)
    requires
        0 <= u < 64,
    ensures
        (braille_pats()[u] as u32) == 0x2800 + u,
{
    reveal_strlit("⠀⠁⠂⠃⠄⠅⠆⠇⠈⠉⠊⠋⠌⠍⠎⠏⠐⠑⠒⠓⠔⠕⠖⠗⠘⠙⠚⠛⠜⠝⠞⠟⠠⠡⠢⠣⠤⠥⠦⠧⠨⠩⠪⠫⠬⠭⠮⠯⠰⠱⠲⠳⠴⠵⠶⠷⠸⠹⠺⠻⠼⠽⠾⠿⡀⡁⡂⡃⡄⡅⡆⡇⡈⡉⡊⡋⡌⡍⡎⡏⡐⡑⡒⡓⡔⡕⡖⡗⡘⡙⡚⡛⡜⡝⡞⡟⡠⡡⡢⡣⡤⡥⡦⡧⡨⡩⡪⡫⡬⡭⡮⡯⡰⡱⡲⡳⡴⡵⡶⡷⡸⡹⡺⡻⡼⡽⡾⡿⢀⢁⢂⢃⢄⢅⢆⢇⢈⢉⢊⢋⢌⢍⢎⢏⢐⢑⢒⢓⢔⢕⢖⢗⢘⢙⢚⢛⢜⢝⢞⢟⢠⢡⢢⢣⢤⢥⢦⢧⢨⢩⢪⢫⢬⢭⢮⢯⢰⢱⢲⢳⢴⢵⢶⢷⢸⢹⢺⢻⢼⢽⢾⢿⣀⣁⣂⣃⣄⣅⣆⣇⣈⣉⣊⣋⣌⣍⣎⣏⣐⣑⣒⣓⣔⣕⣖⣗⣘⣙⣚⣛⣜⣝⣞⣟⣠⣡⣢⣣⣤⣥⣦⣧⣨⣩⣪⣫⣬⣭⣮⣯⣰⣱⣲⣳⣴⣵⣶⣷⣸⣹⣺⣻⣼⣽⣾⣿");
    if u == 0 {
        assert((braille_pats()[0] as u32) == 0x2800);
    } else if u == 1 {
        assert((braille_pats()[1] as u32) == 0x2801);
    } else if u == 2 {
        assert((braille_pats()[2] as u32) == 0x2802);
    } else if u == 3 {
        assert((braille_pats()[3] as u32) == 0x2803);
    } else if u == 4 {
        assert((braille_pats()[4] as u32) == 0x2804);
    } else if u == 5 {
        assert((braille_pats()[5] as u32) == 0x2805);
    } else if u == 6 {
        assert((braille_pats()[6] as u32) == 0x2806);
    } else if u == 7 {
        assert((braille_pats()[7] as u32) == 0x2807);
    } else if u == 8 {
        assert((braille_pats()[8] as u32) == 0x2808);
    } else if u == 9 {
        assert((braille_pats()[9] as u32) == 0x2809);
    } else if u == 10 {
        assert((braille_pats()[10] as u32) == 0x280a);
    } else if u == 11 {
        assert((braille_pats()[11] as u32) == 0x280b);
    } else if u == 12 {
        assert((braille_pats()[12] as u32) == 0x280c);
    } else if u == 13 {
        assert((braille_pats()[13] as u32) == 0x280d);
    } else if u == 14 {
        assert((braille_pats()[14] as u32) == 0x280e);
    } else if u == 15 {
        assert((braille_pats()[15] as u32) == 0x280f);
    } else if u == 16 {
        assert((braille_pats()[16] as u32) == 0x2810);
    } else if u == 17 {
        assert((braille_pats()[17] as u32) == 0x2811);
    } else if u == 18 {
        assert((braille_pats()[18] as u32) == 0x2812);
    } else if u == 19 {
        assert((braille_pats()[19] as u32) == 0x2813);
    } else if u == 20 {
        assert((braille_pats()[20] as u32) == 0x2814);
    } else if u == 21 {
        assert((braille_pats()[21] as u32) == 0x2815);
    } else if u == 22 {
        assert((braille_pats()[22] as u32) == 0x2816);
    } else if u == 23 {
        assert((braille_pats()[23] as u32) == 0x2817);
    } else if u == 24 {
        assert((braille_pats()[24] as u32) == 0x2818);
    } else if u == 25 {
        assert((braille_pats()[25] as u32) == 0x2819);
    } else if u == 26 {
        assert((braille_pats()[26] as u32) == 0x281a);
    } else if u == 27 {
        assert((braille_pats()[27] as u32) == 0x281b);
    } else if u == 28 {
        assert((braille_pats()[28] as u32) == 0x281c);
    } else if u == 29 {
        assert((braille_pats()[29] as u32) == 0x281d);
    } else if u == 30 {
        assert((braille_pats()[30] as u32) == 0x281e);
    } else if u == 31 {
        assert((braille_pats()[31] as u32) == 0x281f);
    } else if u == 32 {
        assert((braille_pats()[32] as u32) == 0x2820);
    } else if u == 33 {
        assert((braille_pats()[33] as u32) == 0x2821);
    } else if u == 34 {
        assert((braille_pats()[34] as u32) == 0x2822);
    } else if u == 35 {
        assert((braille_pats()[35] as u32) == 0x2823);
    } else if u == 36 {
        assert((braille_pats()[36] as u32) == 0x2824);
    } else if u == 37 {
        assert((braille_pats()[37] as u32) == 0x2825);
    } else if u == 38 {
        assert((braille_pats()[38] as u32) == 0x2826);
    } else if u == 39 {
        assert((braille_pats()[39] as u32) == 0x2827);
    } else if u == 40 {
        assert((braille_pats()[40] as u32) == 0x2828);
    } else if u == 41 {
        assert((braille_pats()[41] as u32) == 0x2829);
    } else if u == 42 {
        assert((braille_pats()[42] as u32) == 0x282a);
    } else if u == 43 {
        assert((braille_pats()[43] as u32) == 0x282b);
    } else if u == 44 {
        assert((braille_pats()[44] as u32) == 0x282c);
    } else if u == 45 {
        assert((braille_pats()[45] as u32) == 0x282d);
    } else if u == 46 {
        assert((braille_pats()[46] as u32) == 0x282e);
    } else if u == 47 {
        assert((braille_pats()[47] as u32) == 0x282f);
    } else if u == 48 {
        assert((braille_pats()[48] as u32) == 0x2830);
    } else if u == 49 {
        assert((braille_pats()[49] as u32) == 0x2831);
    } else if u == 50 {
        assert((braille_pats()[50] as u32) == 0x2832);
    } else if u == 51 {
        assert((braille_pats()[51] as u32) == 0x2833);
    } else if u == 52 {
        assert((braille_pats()[52] as u32) == 0x2834);
    } else if u == 53 {
        assert((braille_pats()[53] as u32) == 0x2835);
    } else if u == 54 {
        assert((braille_pats()[54] as u32) == 0x2836);
    } else if u == 55 {
        assert((braille_pats()[55] as u32) == 0x2837);
    } else if u == 56 {
        assert((braille_pats()[56] as u32) == 0x2838);
    } else if u == 57 {
        assert((braille_pats()[57] as u32) == 0x2839);
    } else if u == 58 {
        assert((braille_pats()[58] as u32) == 0x283a);
    } else if u == 59 {
        assert((braille_pats()[59] as u32) == 0x283b);
    } else if u == 60 {
        assert((braille_pats()[60] as u32) == 0x283c);
    } else if u == 61 {
        assert((braille_pats()[61] as u32) == 0x283d);
    } else if u == 62 {
        assert((braille_pats()[62] as u32) == 0x283e);
    } else if u == 63 {
        assert((braille_pats()[63] as u32) == 0x283f);
    }
}

proof fn lemma_braille_pats_codepoint_b(u: int)
    requires
        64 <= u < 128,
    ensures
        (braille_pats()[u] as u32) == 0x2800 + u,
{
    reveal_strlit("⠀⠁⠂⠃⠄⠅⠆⠇⠈⠉⠊⠋⠌⠍⠎⠏⠐⠑⠒⠓⠔⠕⠖⠗⠘⠙⠚⠛⠜⠝⠞⠟⠠⠡⠢⠣⠤⠥⠦⠧⠨⠩⠪⠫⠬⠭⠮⠯⠰⠱⠲⠳⠴⠵⠶⠷⠸⠹⠺⠻⠼⠽⠾⠿⡀⡁⡂⡃⡄⡅⡆⡇⡈⡉⡊⡋⡌⡍⡎⡏⡐⡑⡒⡓⡔⡕⡖⡗⡘⡙⡚⡛⡜⡝⡞⡟⡠⡡⡢⡣⡤⡥⡦⡧⡨⡩⡪⡫⡬⡭⡮⡯⡰⡱⡲⡳⡴⡵⡶⡷⡸⡹⡺⡻⡼⡽⡾⡿⢀⢁⢂⢃⢄⢅⢆⢇⢈⢉⢊⢋⢌⢍⢎⢏⢐⢑⢒⢓⢔⢕⢖⢗⢘⢙⢚⢛⢜⢝⢞⢟⢠⢡⢢⢣⢤⢥⢦⢧⢨⢩⢪⢫⢬⢭⢮⢯⢰⢱⢲⢳⢴⢵⢶⢷⢸⢹⢺⢻⢼⢽⢾⢿⣀⣁⣂⣃⣄⣅⣆⣇⣈⣉⣊⣋⣌⣍⣎⣏⣐⣑⣒⣓⣔⣕⣖⣗⣘⣙⣚⣛⣜⣝⣞⣟⣠⣡⣢⣣⣤⣥⣦⣧⣨⣩⣪⣫⣬⣭⣮⣯⣰⣱⣲⣳⣴⣵⣶⣷⣸⣹⣺⣻⣼⣽⣾⣿");
    if u == 64 {
        assert((braille_pats()[64] as u32) == 0x2840);
    } else if u == 65 {
        assert((braille_pats()[65] as u32) == 0x2841);
    } else if u == 66 {
        assert((braille_pats()[66] as u32) == 0x2842);
    } else if u == 67 {
        assert((braille_pats()[67] as u32) == 0x2843);
    } else if u == 68 {
        assert((braille_pats()[68] as u32) == 0x2844);
    } else if u == 69 {
        assert((braille_pats()[69] as u32) == 0x2845);
    } else if u == 70 {
        assert((braille_pats()[70] as u32) == 0x2846);
    } else if u == 71 {
        assert((braille_pats()[71] as u32) == 0x2847);
    } else if u == 72 {
        assert((braille_pats()[72] as u32) == 0x2848);
    } else if u == 73 {
        assert((braille_pats()[73] as u32) == 0x2849);
    } else if u == 74 {
        assert((braille_pats()[74] as u32) == 0x284a);
    } else if u == 75 {
        assert((braille_pats()[75] as u32) == 0x284b);
    } else if u == 76 {
        assert((braille_pats()[76] as u32) == 0x284c);
    } else if u == 77 {
        assert((braille_pats()[77] as u32) == 0x284d);
    } else if u == 78 {
        assert((braille_pats()[78] as u32) == 0x284e);
    } else if u == 79 {
        assert((braille_pats()[79] as u32) == 0x284f);
    } else if u == 80 {
        assert((braille_pats()[80] as u32) == 0x2850);
    } else if u == 81 {
        assert((braille_pats()[81] as u32) == 0x2851);
    } else if u == 82 {
        assert((braille_pats()[82] as u32) == 0x2852);
    } else if u == 83 {
        assert((braille_pats()[83] as u32) == 0x2853);
    } else if u == 84 {
        assert((braille_pats()[84] as u32) == 0x2854);
    } else if u == 85 {
        assert((braille_pats()[85] as u32) == 0x2855);
    } else if u == 86 {
        assert((braille_pats()[86] as u32) == 0x2856);
    } else if u == 87 {
        assert((braille_pats()[87] as u32) == 0x2857);
    } else if u == 88 {
        assert((braille_pats()[88] as u32) == 0x2858);
    } else if u == 89 {
        assert((braille_pats()[89] as u32) == 0x2859);
    } else if u == 90 {
        assert((braille_pats()[90] as u32) == 0x285a);
    } else if u == 91 {
        assert((braille_pats()[91] as u32) == 0x285b);
    } else if u == 92 {
        assert((braille_pats()[92] as u32) == 0x285c);
    } else if u == 93 {
        assert((braille_pats()[93] as u32) == 0x285d);
    } else if u == 94 {
        assert((braille_pats()[94] as u32) == 0x285e);
    } else if u == 95 {
        assert((braille_pats()[95] as u32) == 0x285f);
    } else if u == 96 {
        assert((braille_pats()[96] as u32) == 0x2860);
    } else if u == 97 {
        assert((braille_pats()[97] as u32) == 0x2861);
    } else if u == 98 {
        assert((braille_pats()[98] as u32) == 0x2862);
    } else if u == 99 {
        assert((braille_pats()[99] as u32) == 0x2863);
    } else if u == 100 {
        assert((braille_pats()[100] as u32) == 0x2864);
    } else if u == 101 {
        assert((braille_pats()[101] as u32) == 0x2865);
    } else if u == 102 {
        assert((braille_pats()[102] as u32) == 0x2866);
    } else if u == 103 {
        assert((braille_pats()[103] as u32) == 0x2867);
    } else if u == 104 {
        assert((braille_pats()[104] as u32) == 0x2868);
    } else if u == 105 {
        assert((braille_pats()[105] as u32) == 0x2869);
    } else if u == 106 {
        assert((braille_pats()[106] as u32) == 0x286a);
    } else if u == 107 {
        assert((braille_pats()[107] as u32) == 0x286b);
    } else if u == 108 {
        assert((braille_pats()[108] as u32) == 0x286c);
    } else if u == 109 {
        assert((braille_pats()[109] as u32) == 0x286d);
    } else if u == 110 {
        assert((braille_pats()[110] as u32) == 0x286e);
    } else if u == 111 {
        assert((braille_pats()[111] as u32) == 0x286f);
    } else if u == 112 {
        assert((braille_pats()[112] as u32) == 0x2870);
    } else if u == 113 {
        assert((braille_pats()[113] as u32) == 0x2871);
    } else if u == 114 {
        assert((braille_pats()[114] as u32) == 0x2872);
    } else if u == 115 {
        assert((braille_pats()[115] as u32) == 0x2873);
    } else if u == 116 {
        assert((braille_pats()[116] as u32) == 0x2874);
    } else if u == 117 {
        assert((braille_pats()[117] as u32) == 0x2875);
    } else if u == 118 {
        assert((braille_pats()[118] as u32) == 0x2876);
    } else if u == 119 {
        assert((braille_pats()[119] as u32) == 0x2877);
    } else if u == 120 {
        assert((braille_pats()[120] as u32) == 0x2878);
    } else if u == 121 {
        assert((braille_pats()[121] as u32) == 0x2879);
    } else if u == 122 {
        assert((braille_pats()[122] as u32) == 0x287a);
    } else if u == 123 {
        assert((braille_pats()[123] as u32) == 0x287b);
    } else if u == 124 {
        assert((braille_pats()[124] as u32) == 0x287c);
    } else if u == 125 {
        assert((braille_pats()[125] as u32) == 0x287d);
    } else if u == 126 {
        assert((braille_pats()[126] as u32) == 0x287e);
    } else if u == 127 {
        assert((braille_pats()[127] as u32) == 0x287f);
    }
}

proof fn lemma_braille_pats_codepoint_c(u: int)
    requires
        128 <= u < 192,
    ensures
        (braille_pats()[u] as u32) == 0x2800 + u,
{
    reveal_strlit("⠀⠁⠂⠃⠄⠅⠆⠇⠈⠉⠊⠋⠌⠍⠎⠏⠐⠑⠒⠓⠔⠕⠖⠗⠘⠙⠚⠛⠜⠝⠞⠟⠠⠡⠢⠣⠤⠥⠦⠧⠨⠩⠪⠫⠬⠭⠮⠯⠰⠱⠲⠳⠴⠵⠶⠷⠸⠹⠺⠻⠼⠽⠾⠿⡀⡁⡂⡃⡄⡅⡆⡇⡈⡉⡊⡋⡌⡍⡎⡏⡐⡑⡒⡓⡔⡕⡖⡗⡘⡙⡚⡛⡜⡝⡞⡟⡠⡡⡢⡣⡤⡥⡦⡧⡨⡩⡪⡫⡬⡭⡮⡯⡰⡱⡲⡳⡴⡵⡶⡷⡸⡹⡺⡻⡼⡽⡾⡿⢀⢁⢂⢃⢄⢅⢆⢇⢈⢉⢊⢋⢌⢍⢎⢏⢐⢑⢒⢓⢔⢕⢖⢗⢘⢙⢚⢛⢜⢝⢞⢟⢠⢡⢢⢣⢤⢥⢦⢧⢨⢩⢪⢫⢬⢭⢮⢯⢰⢱⢲⢳⢴⢵⢶⢷⢸⢹⢺⢻⢼⢽⢾⢿⣀⣁⣂⣃⣄⣅⣆⣇⣈⣉⣊⣋⣌⣍⣎⣏⣐⣑⣒⣓⣔⣕⣖⣗⣘⣙⣚⣛⣜⣝⣞⣟⣠⣡⣢⣣⣤⣥⣦⣧⣨⣩⣪⣫⣬⣭⣮⣯⣰⣱⣲⣳⣴⣵⣶⣷⣸⣹⣺⣻⣼⣽⣾⣿");
    if u == 128 {
        assert((braille_pats()[128] as u32) == 0x2880);
    } else if u == 129 {
        assert((braille_pats()[129] as u32) == 0x2881);
    } else if u == 130 {
        assert((braille_pats()[130] as u32) == 0x2882);
    } else if u == 131 {
        assert((braille_pats()[131] as u32) == 0x2883);
    } else if u == 132 {
        assert((braille_pats()[132] as u32) == 0x2884);
    } else if u == 133 {
        assert((braille_pats()[133] as u32) == 0x2885);
    } else if u == 134 {
        assert((braille_pats()[134] as u32) == 0x2886);
    } else if u == 135 {
        assert((braille_pats()[135] as u32) == 0x2887);
    } else if u == 136 {
        assert((braille_pats()[136] as u32) == 0x2888);
    } else if u == 137 {
        assert((braille_pats()[137] as u32) == 0x2889);
    } else if u == 138 {
        assert((braille_pats()[138] as u32) == 0x288a);
    } else if u == 139 {
        assert((braille_pats()[139] as u32) == 0x288b);
    } else if u == 140 {
        assert((braille_pats()[140] as u32) == 0x288c);
    } else if u == 141 {
        assert((braille_pats()[141] as u32) == 0x288d);
    } else if u == 142 {
        assert((braille_pats()[142] as u32) == 0x288e);
    } else if u == 143 {
        assert((braille_pats()[143] as u32) == 0x288f);
    } else if u == 144 {
        assert((braille_pats()[144] as u32) == 0x2890);
    } else if u == 145 {
        assert((braille_pats()[145] as u32) == 0x2891);
    } else if u == 146 {
        assert((braille_pats()[146] as u32) == 0x2892);
    } else if u == 147 {
        assert((braille_pats()[147] as u32) == 0x2893);
    } else if u == 148 {
        assert((braille_pats()[148] as u32) == 0x2894);
    } else if u == 149 {
        assert((braille_pats()[149] as u32) == 0x2895);
    } else if u == 150 {
        assert((braille_pats()[150] as u32) == 0x2896);
    } else if u == 151 {
        assert((braille_pats()[151] as u32) == 0x2897);
    } else if u == 152 {
        assert((braille_pats()[152] as u32) == 0x2898);
    } else if u == 153 {
        assert((braille_pats()[153] as u32) == 0x2899);
    } else if u == 154 {
        assert((braille_pats()[154] as u32) == 0x289a);
    } else if u == 155 {
        assert((braille_pats()[155] as u32) == 0x289b);
    } else if u == 156 {
        assert((braille_pats()[156] as u32) == 0x289c);
    } else if u == 157 {
        assert((braille_pats()[157] as u32) == 0x289d);
    } else if u == 158 {
        assert((braille_pats()[158] as u32) == 0x289e);
    } else if u == 159 {
        assert((braille_pats()[159] as u32) == 0x289f);
    } else if u == 160 {
        assert((braille_pats()[160] as u32) == 0x28a0);
    } else if u == 161 {
        assert((braille_pats()[161] as u32) == 0x28a1);
    } else if u == 162 {
        assert((braille_pats()[162] as u32) == 0x28a2);
    } else if u == 163 {
        assert((braille_pats()[163] as u32) == 0x28a3);
    } else if u == 164 {
        assert((braille_pats()[164] as u32) == 0x28a4);
    } else if u == 165 {
        assert((braille_pats()[165] as u32) == 0x28a5);
    } else if u == 166 {
        assert((braille_pats()[166] as u32) == 0x28a6);
    } else if u == 167 {
        assert((braille_pats()[167] as u32) == 0x28a7);
    } else if u == 168 {
        assert((braille_pats()[168] as u32) == 0x28a8);
    } else if u == 169 {
        assert((braille_pats()[169] as u32) == 0x28a9);
    } else if u == 170 {
        assert((braille_pats()[170] as u32) == 0x28aa);
    } else if u == 171 {
        assert((braille_pats()[171] as u32) == 0x28ab);
    } else if u == 172 {
        assert((braille_pats()[172] as u32) == 0x28ac);
    } else if u == 173 {
        assert((braille_pats()[173] as u32) == 0x28ad);
    } else if u == 174 {
        assert((braille_pats()[174] as u32) == 0x28ae);
    } else if u == 175 {
        assert((braille_pats()[175] as u32) == 0x28af);
    } else if u == 176 {
        assert((braille_pats()[176] as u32) == 0x28b0);
    } else if u == 177 {
        assert((braille_pats()[177] as u32) == 0x28b1);
    } else if u == 178 {
        assert((braille_pats()[178] as u32) == 0x28b2);
    } else if u == 179 {
        assert((braille_pats()[179] as u32) == 0x28b3);
    } else if u == 180 {
        assert((braille_pats()[180] as u32) == 0x28b4);
    } else if u == 181 {
        assert((braille_pats()[181] as u32) == 0x28b5);
    } else if u == 182 {
        assert((braille_pats()[182] as u32) == 0x28b6);
    } else if u == 183 {
        assert((braille_pats()[183] as u32) == 0x28b7);
    } else if u == 184 {
        assert((braille_pats()[184] as u32) == 0x28b8);
    } else if u == 185 {
        assert((braille_pats()[185] as u32) == 0x28b9);
    } else if u == 186 {
        assert((braille_pats()[186] as u32) == 0x28ba);
    } else if u == 187 {
        assert((braille_pats()[187] as u32) == 0x28bb);
    } else if u == 188 {
        assert((braille_pats()[188] as u32) == 0x28bc);
    } else if u == 189 {
        assert((braille_pats()[189] as u32) == 0x28bd);
    } else if u == 190 {
        assert((braille_pats()[190] as u32) == 0x28be);
    } else if u == 191 {
        assert((braille_pats()[191] as u32) == 0x28bf);
    }
}

proof fn lemma_braille_pats_codepoint_d(u: int)
    requires
        192 <= u < 256,
    ensures
        (braille_pats()[u] as u32) == 0x2800 + u,
{
    reveal_strlit("⠀⠁⠂⠃⠄⠅⠆⠇⠈⠉⠊⠋⠌⠍⠎⠏⠐⠑⠒⠓⠔⠕⠖⠗⠘⠙⠚⠛⠜⠝⠞⠟⠠⠡⠢⠣⠤⠥⠦⠧⠨⠩⠪⠫⠬⠭⠮⠯⠰⠱⠲⠳⠴⠵⠶⠷⠸⠹⠺⠻⠼⠽⠾⠿⡀⡁⡂⡃⡄⡅⡆⡇⡈⡉⡊⡋⡌⡍⡎⡏⡐⡑⡒⡓⡔⡕⡖⡗⡘⡙⡚⡛⡜⡝⡞⡟⡠⡡⡢⡣⡤⡥⡦⡧⡨⡩⡪⡫⡬⡭⡮⡯⡰⡱⡲⡳⡴⡵⡶⡷⡸⡹⡺⡻⡼⡽⡾⡿⢀⢁⢂⢃⢄⢅⢆⢇⢈⢉⢊⢋⢌⢍⢎⢏⢐⢑⢒⢓⢔⢕⢖⢗⢘⢙⢚⢛⢜⢝⢞⢟⢠⢡⢢⢣⢤⢥⢦⢧⢨⢩⢪⢫⢬⢭⢮⢯⢰⢱⢲⢳⢴⢵⢶⢷⢸⢹⢺⢻⢼⢽⢾⢿⣀⣁⣂⣃⣄⣅⣆⣇⣈⣉⣊⣋⣌⣍⣎⣏⣐⣑⣒⣓⣔⣕⣖⣗⣘⣙⣚⣛⣜⣝⣞⣟⣠⣡⣢⣣⣤⣥⣦⣧⣨⣩⣪⣫⣬⣭⣮⣯⣰⣱⣲⣳⣴⣵⣶⣷⣸⣹⣺⣻⣼⣽⣾⣿");
    if u == 192 {
        assert((braille_pats()[192] as u32) == 0x28c0);
    } else if u == 193 {
        assert((braille_pats()[193] as u32) == 0x28c1);
    } else if u == 194 {
        assert((braille_pats()[194] as u32) == 0x28c2);
    } else if u == 195 {
        assert((braille_pats()[195] as u32) == 0x28c3);
    } else if u == 196 {
        assert((braille_pats()[196] as u32) == 0x28c4);
    } else if u == 197 {
        assert((braille_pats()[197] as u32) == 0x28c5);
    } else if u == 198 {
        assert((braille_pats()[198] as u32) == 0x28c6);
    } else if u == 199 {
        assert((braille_pats()[199] as u32) == 0x28c7);
    } else if u == 200 {
        assert((braille_pats()[200] as u32) == 0x28c8);
    } else if u == 201 {
        assert((braille_pats()[201] as u32) == 0x28c9);
    } else if u == 202 {
        assert((braille_pats()[202] as u32) == 0x28ca);
    } else if u == 203 {
        assert((braille_pats()[203] as u32) == 0x28cb);
    } else if u == 204 {
        assert((braille_pats()[204] as u32) == 0x28cc);
    } else if u == 205 {
        assert((braille_pats()[205] as u32) == 0x28cd);
    } else if u == 206 {
        assert((braille_pats()[206] as u32) == 0x28ce);
    } else if u == 207 {
        assert((braille_pats()[207] as u32) == 0x28cf);
    } else if u == 208 {
        assert((braille_pats()[208] as u32) == 0x28d0);
    } else if u == 209 {
        assert((braille_pats()[209] as u32) == 0x28d1);
    } else if u == 210 {
        assert((braille_pats()[210] as u32) == 0x28d2);
    } else if u == 211 {
        assert((braille_pats()[211] as u32) == 0x28d3);
    } else if u == 212 {
        assert((braille_pats()[212] as u32) == 0x28d4);
    } else if u == 213 {
        assert((braille_pats()[213] as u32) == 0x28d5);
    } else if u == 214 {
        assert((braille_pats()[214] as u32) == 0x28d6);
    } else if u == 215 {
        assert((braille_pats()[215] as u32) == 0x28d7);
    } else if u == 216 {
        assert((braille_pats()[216] as u32) == 0x28d8);
    } else if u == 217 {
        assert((braille_pats()[217] as u32) == 0x28d9);
    } else if u == 218 {
        assert((braille_pats()[218] as u32) == 0x28da);
    } else if u == 219 {
        assert((braille_pats()[219] as u32) == 0x28db);
    } else if u == 220 {
        assert((braille_pats()[220] as u32) == 0x28dc);
    } else if u == 221 {
        assert((braille_pats()[221] as u32) == 0x28dd);
    } else if u == 222 {
        assert((braille_pats()[222] as u32) == 0x28de);
    } else if u == 223 {
        assert((braille_pats()[223] as u32) == 0x28df);
    } else if u == 224 {
        assert((braille_pats()[224] as u32) == 0x28e0);
    } else if u == 225 {
        assert((braille_pats()[225] as u32) == 0x28e1);
    } else if u == 226 {
        assert((braille_pats()[226] as u32) == 0x28e2);
    } else if u == 227 {
        assert((braille_pats()[227] as u32) == 0x28e3);
    } else if u == 228 {
        assert((braille_pats()[228] as u32) == 0x28e4);
    } else if u == 229 {
        assert((braille_pats()[229] as u32) == 0x28e5);
    } else if u == 230 {
        assert((braille_pats()[230] as u32) == 0x28e6);
    } else if u == 231 {
        assert((braille_pats()[231] as u32) == 0x28e7);
    } else if u == 232 {
        assert((braille_pats()[232] as u32) == 0x28e8);
    } else if u == 233 {
        assert((braille_pats()[233] as u32) == 0x28e9);
    } else if u == 234 {
        assert((braille_pats()[234] as u32) == 0x28ea);
    } else if u == 235 {
        assert((braille_pats()[235] as u32) == 0x28eb);
    } else if u == 236 {
        assert((braille_pats()[236] as u32) == 0x28ec);
    } else if u == 237 {
        assert((braille_pats()[237] as u32) == 0x28ed);
    } else if u == 238 {
        assert((braille_pats()[238] as u32) == 0x28ee);
    } else if u == 239 {
        assert((braille_pats()[239] as u32) == 0x28ef);
    } else if u == 240 {
        assert((braille_pats()[240] as u32) == 0x28f0);
    } else if u == 241 {
        assert((braille_pats()[241] as u32) == 0x28f1);
    } else if u == 242 {
        assert((braille_pats()[242] as u32) == 0x28f2);
    } else if u == 243 {
        assert((braille_pats()[243] as u32) == 0x28f3);
    } else if u == 244 {
        assert((braille_pats()[244] as u32) == 0x28f4);
    } else if u == 245 {
        assert((braille_pats()[245] as u32) == 0x28f5);
    } else if u == 246 {
        assert((braille_pats()[246] as u32) == 0x28f6);
    } else if u == 247 {
        assert((braille_pats()[247] as u32) == 0x28f7);
    } else if u == 248 {
        assert((braille_pats()[248] as u32) == 0x28f8);
    } else if u == 249 {
        assert((braille_pats()[249] as u32) == 0x28f9);
    } else if u == 250 {
        assert((braille_pats()[250] as u32) == 0x28fa);
    } else if u == 251 {
        assert((braille_pats()[251] as u32) == 0x28fb);
    } else if u == 252 {
        assert((braille_pats()[252] as u32) == 0x28fc);
    } else if u == 253 {
        assert((braille_pats()[253] as u32) == 0x28fd);
    } else if u == 254 {
        assert((braille_pats()[254] as u32) == 0x28fe);
    } else if u == 255 {
        assert((braille_pats()[255] as u32) == 0x28ff);
    }
}

/// The dot-pattern glyph of a fragment is the single braille character
/// whose code point is `0x2800` plus the remapped dot bits.
pub proof fn lemma_braille_glyph_codepoint(gs: Braille8GlyphSet, fragment: Fragment)
    ensures
        gs.spec_glyph(fragment).len() == 1,
        (gs.spec_glyph(fragment)[0] as u32) == 0x2800 + braille_remap(fragment),
{
    assert(braille_remap(fragment) < 256) by (bit_vector);
    let u = braille_remap(fragment) as int;
    reveal_strlit("⠀⠁⠂⠃⠄⠅⠆⠇⠈⠉⠊⠋⠌⠍⠎⠏⠐⠑⠒⠓⠔⠕⠖⠗⠘⠙⠚⠛⠜⠝⠞⠟⠠⠡⠢⠣⠤⠥⠦⠧⠨⠩⠪⠫⠬⠭⠮⠯⠰⠱⠲⠳⠴⠵⠶⠷⠸⠹⠺⠻⠼⠽⠾⠿⡀⡁⡂⡃⡄⡅⡆⡇⡈⡉⡊⡋⡌⡍⡎⡏⡐⡑⡒⡓⡔⡕⡖⡗⡘⡙⡚⡛⡜⡝⡞⡟⡠⡡⡢⡣⡤⡥⡦⡧⡨⡩⡪⡫⡬⡭⡮⡯⡰⡱⡲⡳⡴⡵⡶⡷⡸⡹⡺⡻⡼⡽⡾⡿⢀⢁⢂⢃⢄⢅⢆⢇⢈⢉⢊⢋⢌⢍⢎⢏⢐⢑⢒⢓⢔⢕⢖⢗⢘⢙⢚⢛⢜⢝⢞⢟⢠⢡⢢⢣⢤⢥⢦⢧⢨⢩⢪⢫⢬⢭⢮⢯⢰⢱⢲⢳⢴⢵⢶⢷⢸⢹⢺⢻⢼⢽⢾⢿⣀⣁⣂⣃⣄⣅⣆⣇⣈⣉⣊⣋⣌⣍⣎⣏⣐⣑⣒⣓⣔⣕⣖⣗⣘⣙⣚⣛⣜⣝⣞⣟⣠⣡⣢⣣⣤⣥⣦⣧⣨⣩⣪⣫⣬⣭⣮⣯⣰⣱⣲⣳⣴⣵⣶⣷⣸⣹⣺⣻⣼⣽⣾⣿");
    assert(braille_pats().len() == 256);
    if u < 64 {
        lemma_braille_pats_codepoint_a(u);
    } else if u < 128 {
        lemma_braille_pats_codepoint_b(u);
    } else if u < 192 {
        lemma_braille_pats_codepoint_c(u);
    } else {
        lemma_braille_pats_codepoint_d(u);
    }
    assert(gs.spec_glyph(fragment)[0] == braille_pats()[u]);
}

/// Every dot-pattern glyph is exactly 3 UTF-8 bytes, the advertised
/// maximum: its code point lies in the braille block.
pub proof fn lemma_braille_glyph_byte_len(gs: Braille8GlyphSet, fragment: Fragment)
    ensures
        glyph_byte_len(gs.spec_glyph(fragment)) == 3,
        gs.spec_max_glyph_len() == 3,
{
    lemma_braille_glyph_codepoint(gs, fragment);
    let c = gs.spec_glyph(fragment)[0];
    assert(gs.spec_glyph(fragment) =~= seq![c]);
    assert(braille_remap(fragment) < 256) by (bit_vector);
    lemma_char_byte_len(c);
    reveal_strlit("⣿");
    assert("⣿"@ =~= seq!['⣿']);
    lemma_char_byte_len('⣿');
}

/// The 8-dot braille pattern glyph set.
pub fn glyph_set_braille8() -> (r: Braille8GlyphSet)
    ensures
        r.inv(),
        r.spec_mask_dims() == (2usize, 4usize),
        r.spec_mask_overlap() == (0usize, 0usize),
        r.spec_max_glyph_len() == 3,
{
    let r = Braille8GlyphSet {};
    proof {
        lemma_braille_glyph_byte_len(r, 0);
    }
    r
}

} // verus!
