//! Input image representation: the abstract image-source interface the
//! scanner consumes, and a concrete packed bitmap implementing it.
use vstd::arithmetic::div_mod::{
    lemma_div_is_ordered, lemma_fundamental_div_mod, lemma_fundamental_div_mod_converse,
    lemma_mod_bound,
};
use vstd::prelude::*;

use crate::bits::{bit64, lemma_span_or_bit, lemma_span_zero, span_bit};
use crate::Span;

verus! {

/// Mathematical model of a binary image: dimensions plus one boolean per
/// pixel (true = foreground).
pub struct ImageModel {
    pub width: nat,
    pub height: nat,
    pub pixels: Seq<Seq<bool>>,
}

impl ImageModel {
    pub open spec fn wf(self) -> bool {
        &&& self.pixels.len() == self.height
        &&& forall|y: int| 0 <= y < self.height ==> (#[trigger] self.pixels[y]).len() == self.width
        &&& self.width <= usize::MAX
        &&& self.height <= usize::MAX
    }

    /// The pixel at column `x` of row `y`.
    pub open spec fn pixel(self, y: int, x: int) -> bool {
        self.pixels[y][x]
    }
}

/// Spans needed to pack one row of `width` pixels.
pub open spec fn spec_spans_per_line(width: int) -> int {
    (width + 15) / 16
}

/// An image source: something that can hand out its rows as packed spans.
pub trait ImageRead: Sized {
    /// Abstract contents of the image.
    spec fn img(&self) -> ImageModel;

    /// Get the image's dimensions as `[width, height]`.
    fn dims(&self) -> (r: [usize; 2])
        ensures
            self.img().wf(),
            r[0] == self.img().width,
            r[1] == self.img().height,
    ;

    /// Convert the specified row to spans: bit `x % SPAN_BITS` of span
    /// `x / SPAN_BITS` becomes the pixel at column `x`, 1 = foreground.
    /// `out` holds at least `ceil(width / SPAN_BITS)` spans; bits at and
    /// beyond `width` are unspecified.
    fn copy_line_as_spans_to(&self, y: usize, out: &mut Vec<Span>)
        requires
            self.img().wf(),
            (y as nat) < self.img().height,
            old(out).len() >= spec_spans_per_line(self.img().width as int),
        ensures
            final(out).len() == old(out).len(),
            forall|x: int|
                0 <= x < self.img().width ==> span_bit(final(out)@, x) == self.img().pixel(
                    y as int,
                    x,
                ),
    ;
}

/// Fill spans using a given function that returns the desired value for
/// each pixel index: bit `x` of the packed row becomes `f(x)` for
/// `x < num_pixels`, remaining bits of the last partial span are cleared,
/// and spans wholly beyond the pixels are left untouched.
pub fn set_spans_by_fn<F: Fn(usize) -> bool>(out_spans: &mut Vec<Span>, num_pixels: usize, f: F)
    requires
        old(out_spans).len() >= spec_spans_per_line(num_pixels as int),
        forall|x: usize| x < num_pixels ==> #[trigger] f.requires((x,)),
    ensures
        final(out_spans).len() == old(out_spans).len(),
        forall|x: int|
            0 <= x < num_pixels ==> #[trigger] f.ensures(
                ((x as usize),),
                span_bit(final(out_spans)@, x),
            ),
        num_pixels % 16 != 0 ==> (forall|j: u64|
            num_pixels % 16 <= j < 16 ==> !(#[trigger] bit64(
                final(out_spans)@[(num_pixels / 16) as int] as u64,
                j,
            ))),
        forall|j: int|
            spec_spans_per_line(num_pixels as int) <= j < final(out_spans)@.len()
                ==> final(out_spans)@[j] == old(out_spans)@[j],
{
    let mut i: usize = 0;
    while i < num_pixels
        invariant
            i <= num_pixels,
            out_spans@.len() == old(out_spans)@.len(),
            old(out_spans)@.len() >= spec_spans_per_line(num_pixels as int),
            forall|x: usize| x < num_pixels ==> #[trigger] f.requires((x,)),
            forall|x: int|
                0 <= x < i ==> #[trigger] f.ensures(((x as usize),), span_bit(out_spans@, x)),
            i % 16 != 0 ==> (forall|j: u64|
                i % 16 <= j < 16 ==> !(#[trigger] bit64(out_spans@[(i / 16) as int] as u64, j))),
            forall|j: int|
                spec_spans_per_line(num_pixels as int) <= j < out_spans@.len() ==> out_spans@[j]
                    == old(out_spans)@[j],
        decreases num_pixels - i,
    {
        let k = i % 16;
        let s = i / 16;
        proof {
            lemma_fundamental_div_mod(i as int, 16);
            lemma_mod_bound(i as int, 16);
            lemma_div_is_ordered(i as int, num_pixels as int - 1, 16);
            lemma_fundamental_div_mod(num_pixels as int - 1, 16);
            lemma_mod_bound(num_pixels as int - 1, 16);
            lemma_fundamental_div_mod_converse(
                num_pixels as int + 15,
                16,
                (num_pixels as int - 1) / 16 + 1,
                (num_pixels as int - 1) % 16,
            );
            assert((s as int) < spec_spans_per_line(num_pixels as int));
        }
        let ghost prev = out_spans@;
        if k == 0 {
            out_spans[s] = 0;
        }
        let ghost zeroed = out_spans@;
        let bv = f(i);
        if bv {
            let sp = out_spans[s];
            out_spans[s] = sp | (1u16 << (k as u16));
        }
        proof {
            let curv = out_spans@[s as int];
            assert forall|j: u64| #![trigger bit64(curv as u64, j)] j < 16 implies ({
                &&& (j == k ==> bit64(curv as u64, j) == bv)
                &&& (j < k ==> bit64(curv as u64, j) == bit64(prev[s as int] as u64, j))
                &&& (j > k ==> !bit64(curv as u64, j))
            }) by {
                let base = zeroed[s as int];
                if k == 0 {
                    lemma_span_zero(j);
                    assert(base == 0u16);
                    assert(!bit64(base as u64, j));
                } else {
                    assert(base == prev[s as int]);
                    if j >= k {
                        assert(!bit64(base as u64, j));
                    }
                }
                if bv {
                    lemma_span_or_bit(base, k as u16, j);
                } else {
                    assert(curv == base);
                }
            }
            assert forall|x: int| 0 <= x < i + 1 implies #[trigger] f.ensures(
                ((x as usize),),
                span_bit(out_spans@, x),
            ) by {
                lemma_fundamental_div_mod(x, 16);
                lemma_mod_bound(x, 16);
                if x == i {
                    assert(x / 16 == s as int && x % 16 == k as int);
                    assert(span_bit(out_spans@, x) == bv);
                    assert(f.ensures(((x as usize),), bv));
                } else {
                    if x / 16 == s as int {
                        assert(x % 16 < k as int);
                        assert(bit64(curv as u64, (x % 16) as u64) == bit64(
                            prev[s as int] as u64,
                            (x % 16) as u64,
                        ));
                        assert(span_bit(out_spans@, x) == span_bit(prev, x));
                    } else {
                        assert(out_spans@[x / 16] == prev[x / 16]);
                        assert(span_bit(out_spans@, x) == span_bit(prev, x));
                    }
                    assert(f.ensures(((x as usize),), span_bit(prev, x)));
                }
            }
            if k < 15 {
                lemma_fundamental_div_mod_converse(i as int + 1, 16, s as int, k as int + 1);
            } else {
                lemma_fundamental_div_mod_converse(i as int + 1, 16, s as int + 1, 0);
            }
        }
        i = i + 1;
    }
}

/// An owned packed binary image: the crate's concrete image source. Front
/// ends binarize their decoded raster data into one of these.
pub struct BitImage {
    width: usize,
    height: usize,
    rows: Vec<Vec<Span>>,
}

impl BitImage {
    #[verifier::type_invariant]
    closed spec fn type_inv(&self) -> bool {
        &&& self.rows@.len() == self.height
        &&& forall|y: int|
            0 <= y < self.height ==> (#[trigger] self.rows@[y])@.len() == spec_spans_per_line(
                self.width as int,
            )
    }

    /// Builds an image from row-major pixel booleans (true = foreground).
    pub fn from_pixels(width: usize, height: usize, pixels: &Vec<bool>) -> (r: BitImage)
        requires
            pixels@.len() == width * height,
        ensures
            r.img().width == width,
            r.img().height == height,
            forall|y: int, x: int|
                0 <= y < height && 0 <= x < width ==> #[trigger] r.img().pixel(y, x) == pixels@[y
                    * width + x],
    {
        let spl = if width % 16 == 0 {
            width / 16
        } else {
            width / 16 + 1
        };
        proof {
            lemma_fundamental_div_mod(width as int, 16);
            lemma_mod_bound(width as int, 16);
            if width % 16 == 0 {
                lemma_fundamental_div_mod_converse(
                    width as int + 15,
                    16,
                    (width / 16) as int,
                    15,
                );
            } else {
                lemma_fundamental_div_mod_converse(
                    width as int + 15,
                    16,
                    (width / 16) as int + 1,
                    width as int % 16 - 1,
                );
            }
            assert(spl == spec_spans_per_line(width as int));
        }
        let mut rows: Vec<Vec<Span>> = Vec::new();
        let mut y: usize = 0;
        while y < height
            invariant
                y <= height,
                pixels@.len() == width * height,
                spl == spec_spans_per_line(width as int),
                rows@.len() == y,
                forall|y2: int|
                    0 <= y2 < y ==> (#[trigger] rows@[y2])@.len() == spec_spans_per_line(
                        width as int,
                    ),
                forall|y2: int, x: int|
                    0 <= y2 < y && 0 <= x < width ==> #[trigger] span_bit((rows@[y2])@, x)
                        == pixels@[y2 * width + x],
            decreases height - y,
        {
            proof {
                assert(y * width + width <= height * width && y * width >= 0) by (nonlinear_arith)
                    requires
                        0 <= y,
                        y < height,
                        0 <= width,
                ;
                assert(width * height == height * width) by (nonlinear_arith);
                assert(pixels@.len() <= usize::MAX) by {
                    vstd::std_specs::vec::axiom_spec_len(pixels);
                }
            }
            let row_base = y * width;
            let mut row: Vec<Span> = Vec::new();
            let mut j: usize = 0;
            while j < spl
                invariant
                    row@.len() == j,
                    j <= spl,
                decreases spl - j,
            {
                row.push(0);
                j = j + 1;
            }
            let f = |x: usize| -> (b: bool)
                requires
                    row_base + x < pixels@.len(),
                ensures
                    b == pixels@[row_base + x],
                {
                    pixels[row_base + x]
                };
            proof {
                assert forall|x: usize| x < width implies #[trigger] f.requires((x,)) by {
                    assert(row_base + x < pixels@.len());
                }
            }
            set_spans_by_fn(&mut row, width, f);
            rows.push(row);
            proof {
                assert forall|x: int| 0 <= x < width implies #[trigger] span_bit(
                    (rows@[y as int])@,
                    x,
                ) == pixels@[y * width + x] by {
                    assert(f.ensures(((x as usize),), span_bit((rows@[y as int])@, x)));
                }
            }
            y = y + 1;
        }
        let r = BitImage { width, height, rows };
        proof {
            assert forall|y2: int, x: int|
                0 <= y2 < height && 0 <= x < width implies #[trigger] r.img().pixel(y2, x)
                == pixels@[y2 * width + x] by {
                assert(r.img().pixel(y2, x) == span_bit((rows@[y2])@, x));
            }
        }
        r
    }
}

impl ImageRead for BitImage {
    closed spec fn img(&self) -> ImageModel {
        ImageModel {
            width: self.width as nat,
            height: self.height as nat,
            pixels: Seq::new(
                self.height as nat,
                |y: int|
                    Seq::new(self.width as nat, |x: int| span_bit((self.rows@[y])@, x)),
            ),
        }
    }

    fn dims(&self) -> (r: [usize; 2]) {
        [self.width, self.height]
    }

    fn copy_line_as_spans_to(&self, y: usize, out: &mut Vec<Span>) {
        proof {
            use_type_invariant(self);
        }
        let row = &self.rows[y];
        let spl = row.len();
        let mut j: usize = 0;
        while j < spl
            invariant
                j <= spl,
                out@.len() == old(out)@.len(),
                old(out)@.len() >= spl,
                spl == row@.len(),
                row == &self.rows@[y as int],
                forall|t: int| 0 <= t < j ==> out@[t] == row@[t],
            decreases spl - j,
        {
            out[j] = row[j];
            j = j + 1;
        }
        proof {
            assert forall|x: int| 0 <= x < self.img().width implies span_bit(out@, x)
                == self.img().pixel(y as int, x) by {
                lemma_fundamental_div_mod(x, 16);
                lemma_mod_bound(x, 16);
                lemma_div_is_ordered(x, self.width as int - 1, 16);
                lemma_fundamental_div_mod(self.width as int - 1, 16);
                lemma_mod_bound(self.width as int - 1, 16);
                lemma_fundamental_div_mod_converse(
                    self.width as int + 15,
                    16,
                    (self.width as int - 1) / 16 + 1,
                    (self.width as int - 1) % 16,
                );
                assert(x / 16 < spec_spans_per_line(self.width as int));
                assert(out@[x / 16] == self.rows@[y as int]@[x / 16]);
            }
        }
    }
}

} // verus!
