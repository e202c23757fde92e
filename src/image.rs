use vstd::arithmetic::div_mod::{
    lemma_fundamental_div_mod, lemma_fundamental_div_mod_converse, lemma_mod_pos_bound,
};
use vstd::prelude::*;

use crate::range::Sample;
use crate::types::{
    bucket_for, output_options_compatible, output_options_valid, quantize, quantize_reading,
    OutputType, Reading, Scaled, SparkError, SparkTheme,
};

verus! {

/// Bytes per pixel of an RGBA8 buffer.
pub const CHANNELS: usize = 4;

/// The number of colour bands of the raster theme.
pub const BAND_COUNT: usize = 4;

/// Pixel `i / 4` of a buffer `width` pixels wide lies in columns `x1..x2`
/// and rows `y1..y2`.
pub open spec fn painted(i: int, width: int, x1: int, x2: int, y1: int, y2: int) -> bool {
    &&& x1 <= (i / 4) % width < x2
    &&& y1 <= (i / 4) / width < y2
}

/// The buffer with the rectangle of columns `x1..x2` and rows `y1..y2`
/// painted in `colour`, every other byte kept.
pub open spec fn filled(
    pixels: Seq<u8>,
    width: int,
    x1: int,
    x2: int,
    y1: int,
    y2: int,
    colour: Seq<u8>,
) -> Seq<u8> {
    Seq::new(
        pixels.len(),
        |i: int|
            if painted(i, width, x1, x2, y1, y2) {
                colour[i % 4]
            } else {
                pixels[i]
            },
    )
}

/// The colour of band `band`: green, then yellow twice, then red.
pub open spec fn band_colour(band: int) -> Seq<u8> {
    if band == 0 {
        seq![54u8, 186u8, 46u8, 255u8]
    } else if band == 1 || band == 2 {
        seq![255u8, 218u8, 41u8, 255u8]
    } else {
        seq![220u8, 60u8, 57u8, 255u8]
    }
}

/// The top row of a bar on a canvas `height` rows tall, whose top lies
/// `rise` pixels above the bottom: a full bar when it reaches the top, a
/// single row when it rises less than one pixel.
pub open spec fn bar_top(height: int, rise: Scaled) -> int {
    if rise.floor >= height {
        0
    } else if rise.floor < 1 {
        height - 1
    } else {
        height - rise.floor
    }
}

/// A bar never vanishes: its top row lies on the canvas, so at least the
/// bottom row is painted. A bar that reaches the canvas height spans it
/// all, and one that rises less than a pixel is a single row.
pub proof fn lemma_bar_is_visible(height: int, rise: Scaled)
    requires
        height > 0,
    ensures
        0 <= bar_top(height, rise) < height,
        rise.floor >= height ==> bar_top(height, rise) == 0,
        rise.floor < 1 ==> bar_top(height, rise) == height - 1,
{
}

/// The bytes that carry a PNG image out: the image itself for a file, else
/// an inline-image escape sequence around its base64 text.
pub open spec fn payload_of(png: Seq<u8>, output: Option<OutputType>) -> Seq<u8> {
    if output == Some(OutputType::File) {
        png
    } else {
        inline_image_prefix() + base64_standard(png) + seq![7u8]
    }
}

/// `ESC ]1337;File=inline=1:`, which opens an inline image on a terminal.
pub open spec fn inline_image_prefix() -> Seq<u8> {
    seq![
        0x1Bu8, 0x5Du8, 0x31u8, 0x33u8, 0x33u8, 0x37u8, 0x3Bu8, 0x46u8, 0x69u8, 0x6Cu8, 0x65u8,
        0x3Du8, 0x69u8, 0x6Eu8, 0x6Cu8, 0x69u8, 0x6Eu8, 0x65u8, 0x3Du8, 0x31u8, 0x3Au8,
    ]
}

/// The most pixels a canvas may hold to be encoded: `width * height` then
/// fits a `u32`, and the compressed image data, from at most four bytes a
/// pixel and a filter byte a row, stays well below the 2^31 bytes of a chunk.
pub const MAX_ENCODED_PIXELS: usize = 0x1000_0000;

/// The image codec's error code for an image without pixels.
pub const EMPTY_IMAGE_CODE: u32 = 93;

/// The PNG encoding, RGBA with 8 bits per channel, of a `width` by `height`
/// pixel buffer.
pub uninterp spec fn png_rgba8(pixels: Seq<u8>, width: usize, height: usize) -> Seq<u8>;

/// The character, in the standard base64 alphabet, of a six-bit value:
/// `A`-`Z`, `a`-`z`, `0`-`9`, `+`, `/`.
pub open spec fn base64_digit(v: int) -> u8 {
    if v < 26 {
        (65 + v) as u8
    } else if v < 52 {
        (71 + v) as u8
    } else if v < 62 {
        (v - 4) as u8
    } else if v == 62 {
        43u8
    } else {
        47u8
    }
}

/// Standard base64 text of the bytes, without line breaks: four characters
/// for each group of three bytes, and a last group of one or two bytes
/// padded with `=`.
pub open spec fn base64_standard(b: Seq<u8>) -> Seq<u8>
    decreases b.len(),
{
    if b.len() == 0 {
        Seq::empty()
    } else if b.len() == 1 {
        let n = b[0] as int * 65536;
        seq![base64_digit(n / 262144), base64_digit((n / 4096) % 64), 61u8, 61u8]
    } else if b.len() == 2 {
        let n = b[0] as int * 65536 + b[1] as int * 256;
        seq![
            base64_digit(n / 262144),
            base64_digit((n / 4096) % 64),
            base64_digit((n / 64) % 64),
            61u8,
        ]
    } else {
        let n = b[0] as int * 65536 + b[1] as int * 256 + b[2] as int;
        seq![
            base64_digit(n / 262144),
            base64_digit((n / 4096) % 64),
            base64_digit((n / 64) % 64),
            base64_digit(n % 64),
        ] + base64_standard(b.subrange(3, b.len() as int))
    }
}

/// Relies on lodepng::encode_memory with RGBA and 8 bits: on success the PNG
/// bytes, which depend on the buffer and the size alone; on failure an error,
/// whose code (non-zero) is read through lodepng::ffi::ErrorCode. An image
/// without pixels fails with code 93. The bound on the size keeps clear of
/// the encoder's `u32` product `w * h` and of its assertion that a chunk
/// stays under 2^31 bytes.
#[verifier::external_body]
fn encode_png(pixels: &[u8], width: usize, height: usize) -> (r: Result<Vec<u8>, u32>)
    requires
        pixels@.len() == width * height * 4,
        width * height <= MAX_ENCODED_PIXELS,
    ensures
        r is Ok ==> r->Ok_0@ == png_rgba8(pixels@, width, height),
        r is Err ==> r->Err_0 != 0,
        width == 0 || height == 0 ==> r is Err && r->Err_0 == EMPTY_IMAGE_CODE,
{
    match lodepng::encode_memory(pixels, width, height, lodepng::ColorType::RGBA, 8) {
        Ok(png) => Ok(png),
        Err(e) => Err(lodepng::ffi::ErrorCode::from(e).0),
    }
}

/// Relies on rustc_serialize's `ToBase64` with the `STANDARD` configuration:
/// the standard alphabet, `=` padding, no line breaks.
#[verifier::external_body]
fn to_base64(bytes: &[u8]) -> (r: Vec<u8>)
    ensures
        r@ == base64_standard(bytes@),
{
    rustc_serialize::base64::ToBase64::to_base64(bytes, rustc_serialize::base64::STANDARD).into_bytes()
}

/// The position of the byte of channel `c` of pixel `(x, y)`, and how it
/// splits back into those coordinates.
proof fn lemma_pixel_index(w: int, h: int, x: int, y: int, c: int)
    requires
        0 <= x < w,
        0 <= y < h,
        0 <= c < 4,
    ensures
        0 <= y * w <= y * w + x < w * h,
        0 <= (y * w + x) * 4 + c < w * h * 4,
        ((y * w + x) * 4 + c) / 4 == y * w + x,
        ((y * w + x) * 4 + c) % 4 == c,
        (y * w + x) / w == y,
        (y * w + x) % w == x,
{
    assert(0 <= y * w + x < w * h) by (nonlinear_arith)
        requires
            0 <= x < w,
            0 <= y < h,
    ;
    assert(0 <= (y * w + x) * 4 + c < w * h * 4) by (nonlinear_arith)
        requires
            0 <= y * w + x < w * h,
            0 <= c < 4,
    ;
    lemma_fundamental_div_mod_converse((y * w + x) * 4 + c, 4, y * w + x, c);
    lemma_fundamental_div_mod_converse(y * w + x, w, y, x);
}

/// Every byte position is the position of its own pixel and channel.
proof fn lemma_pixel_split(i: int, w: int)
    requires
        0 <= i,
        0 < w,
    ensures
        i == ((i / 4) / w * w + (i / 4) % w) * 4 + i % 4,
{
    lemma_fundamental_div_mod(i, 4);
    lemma_fundamental_div_mod(i / 4, w);
    let q = (i / 4) / w;
    let r = (i / 4) % w;
    assert(i / 4 == q * w + r) by (nonlinear_arith)
        requires
            i / 4 == w * q + r,
    ;
}

/// How far a column-by-column, row-by-row fill has come: full columns
/// `x1..x`, rows `y1..y` of column `x`, and channels `..c` of pixel `(x, y)`.
spec fn fill_progress(
    i: int,
    w: int,
    x1: int,
    y1: int,
    y2: int,
    x: int,
    y: int,
    c: int,
) -> bool {
    ||| painted(i, w, x1, x, y1, y2)
    ||| painted(i, w, x, x + 1, y1, y)
    ||| (painted(i, w, x, x + 1, y, y + 1) && i % 4 < c)
}

/// The colour of band `band`.
fn colour_of_band(band: usize) -> (r: [u8; 4])
    requires
        band < BAND_COUNT,
    ensures
        r@ == band_colour(band as int),
{
    let r = if band == 0 {
        [54u8, 186u8, 46u8, 255u8]
    } else if band == 1 || band == 2 {
        [255u8, 218u8, 41u8, 255u8]
    } else {
        [220u8, 60u8, 57u8, 255u8]
    };
    assert(r@ =~= band_colour(band as int));
    r
}

/// A theme that draws each sample as a coloured bar on an RGBA canvas.
pub struct ImageTheme {
    pub min: Sample,
    pub max: Sample,
    pub width: usize,
    pub height: usize,
    pub image: Vec<u8>,
    pub output: Option<OutputType>,
}

impl ImageTheme {
    /// The canvas holds four bytes for each pixel.
    pub open spec fn wf(&self) -> bool {
        self.image@.len() == self.width * self.height * 4
    }

    /// The canvas that drawing a sample read as `reading`, at `pos` of
    /// `total`, leaves; or the error that stops it.
    pub open spec fn drawn(&self, total: int, pos: int, reading: Reading) -> Result<Seq<u8>, SparkError> {
        if total <= 0 || pos >= total || self.height == 0 {
            Err(SparkError::InvariantViolation)
        } else {
            match quantize(BAND_COUNT as int, self.min, self.max, reading.bucket) {
                None => Err(SparkError::IndexOutOfRange),
                Some(band) => {
                    let segment = self.width as int / total;
                    let x1 = segment * pos;
                    let top = if self.min.same_value(self.max) {
                        self.height - 1
                    } else {
                        bar_top(self.height as int, reading.rise)
                    };
                    if segment < 2 {
                        Err(SparkError::InvariantViolation)
                    } else {
                        Ok(
                            filled(
                                self.image@,
                                self.width as int,
                                x1,
                                x1 + segment,
                                top,
                                self.height as int,
                                band_colour(band),
                            ),
                        )
                    }
                },
            }
        }
    }

    /// `next` and `r` are the theme and the result that rendering the sample
    /// at `pos` of `length`, read as `reading`, leaves: the bar drawn and empty
    /// text, or the error and the canvas untouched.
    pub open spec fn spark_outcome(
        &self,
        next: ImageTheme,
        pos: int,
        length: int,
        reading: Reading,
        r: Result<String, SparkError>,
    ) -> bool {
        &&& next.wf()
        &&& next.width == self.width
        &&& next.height == self.height
        &&& next.min == self.min
        &&& next.max == self.max
        &&& next.output == self.output
        &&& match self.drawn(length, pos, reading) {
            Ok(img) => r is Ok && r->Ok_0@ == Seq::<char>::empty() && next.image@ == img,
            Err(e) => r == Err::<String, SparkError>(e) && next.image@ == self.image@,
        }
    }

    /// The bytes that `end` sends when the codec accepts the canvas.
    pub open spec fn end_payload(&self) -> Seq<u8> {
        payload_of(png_rgba8(self.image@, self.width, self.height), self.output)
    }

    /// `r` is a result that `end` may give: a canvas too large for the codec
    /// is refused; otherwise the payload of the encoded canvas, or the
    /// codec's (non-zero) error code, which for a canvas without pixels is
    /// the code of an empty image.
    pub open spec fn end_outcome(&self, r: Result<Vec<u8>, SparkError>) -> bool {
        if self.width * self.height > MAX_ENCODED_PIXELS {
            r == Err::<Vec<u8>, SparkError>(SparkError::CanvasTooLarge)
        } else {
            &&& r is Ok ==> r->Ok_0@ == self.end_payload()
            &&& r is Err ==> (r matches Err(SparkError::Encode(code)) && code != 0)
            &&& self.width == 0 || self.height == 0 ==> r == Err::<Vec<u8>, SparkError>(
                SparkError::Encode(EMPTY_IMAGE_CODE),
            )
        }
    }

    /// A lone sample (`total` of one) whose rise reaches the canvas height is
    /// drawn as a bar over the full height; one that rises less than a pixel
    /// as a bar one row tall at the bottom. Either way the bar spans every
    /// column of the canvas.
    pub proof fn lemma_single_sample_bar(&self, reading: Reading)
        requires
            self.wf(),
            self.width >= 2,
            self.height > 0,
            !self.min.same_value(self.max),
            bucket_for(BAND_COUNT as int, reading.bucket) is Some,
        ensures
            reading.rise.floor >= self.height ==> self.drawn(1, 0, reading) == Ok::<
                Seq<u8>,
                SparkError,
            >(
                filled(
                    self.image@,
                    self.width as int,
                    0,
                    self.width as int,
                    0,
                    self.height as int,
                    band_colour(bucket_for(BAND_COUNT as int, reading.bucket)->Some_0),
                ),
            ),
            reading.rise.floor < 1 ==> self.drawn(1, 0, reading) == Ok::<Seq<u8>, SparkError>(
                filled(
                    self.image@,
                    self.width as int,
                    0,
                    self.width as int,
                    self.height - 1,
                    self.height as int,
                    band_colour(bucket_for(BAND_COUNT as int, reading.bucket)->Some_0),
                ),
            ),
    {
        assert(self.width as int / 1 == self.width);
    }

    /// A blank (all zero) canvas of `width` by `height` pixels, with zero
    /// bounds and no destination.
    pub fn new(width: usize, height: usize) -> (r: ImageTheme)
        requires
            width * height * 4 <= usize::MAX,
        ensures
            r.wf(),
            r.width == width,
            r.height == height,
            forall|i: int| 0 <= i < r.image@.len() ==> #[trigger] r.image@[i] == 0,
            r.min == (Sample { bits: 0 }),
            r.max == (Sample { bits: 0 }),
            r.output is None,
    {
        assert(width * height <= width * height * 4) by (nonlinear_arith);
        let size = width * height * 4;
        let mut image: Vec<u8> = Vec::new();
        let mut i: usize = 0;
        while i < size
            invariant
                i <= size,
                image@.len() == i,
                forall|j: int| 0 <= j < i ==> #[trigger] image@[j] == 0,
            decreases size - i,
        {
            image.push(0);
            i = i + 1;
        }
        ImageTheme {
            min: Sample { bits: 0 },
            max: Sample { bits: 0 },
            width,
            height,
            image,
            output: None,
        }
    }

    /// Paints columns `x1..x2` and rows `y1..y2` in `colour`.
    fn fill_bar(&mut self, x1: usize, x2: usize, y1: usize, y2: usize, colour: &[u8; 4]) -> (r:
        Result<(), SparkError>)
        requires
            old(self).wf(),
            x2 <= old(self).width,
            y2 <= old(self).height,
        ensures
            final(self).width == old(self).width,
            final(self).height == old(self).height,
            final(self).min == old(self).min,
            final(self).max == old(self).max,
            final(self).output == old(self).output,
            x1 < x2 && y1 < y2 ==> r is Ok && final(self).image@ == filled(
                old(self).image@,
                old(self).width as int,
                x1 as int,
                x2 as int,
                y1 as int,
                y2 as int,
                colour@,
            ),
            !(x1 < x2 && y1 < y2) ==> r == Err::<(), SparkError>(SparkError::InvariantViolation)
                && final(self).image@ == old(self).image@,
    {
        if x1 >= x2 || y1 >= y2 {
            return Err(SparkError::InvariantViolation);
        }
        let ghost start = self.image@;
        let w = self.width;
        let h = self.height;
        let len = self.image.len();
        assert(len == w * h * 4);
        let mut x = x1;
        while x < x2
            invariant
                self.width == w,
                self.height == h,
                self.min == old(self).min,
                self.max == old(self).max,
                self.output == old(self).output,
                start == old(self).image@,
                start.len() == w * h * 4,
                w * h * 4 <= usize::MAX,
                self.image@.len() == start.len(),
                x1 <= x <= x2,
                x2 <= w,
                y1 < y2 <= h,
                forall|i: int|
                    0 <= i < start.len() ==> #[trigger] self.image@[i] == if fill_progress(
                        i,
                        w as int,
                        x1 as int,
                        y1 as int,
                        y2 as int,
                        x as int,
                        y1 as int,
                        0,
                    ) {
                        colour@[i % 4]
                    } else {
                        start[i]
                    },
            decreases x2 - x,
        {
            let mut y = y1;
            while y < y2
                invariant
                    self.width == w,
                    self.height == h,
                    self.min == old(self).min,
                    self.max == old(self).max,
                    self.output == old(self).output,
                    start.len() == w * h * 4,
                    w * h * 4 <= usize::MAX,
                    self.image@.len() == start.len(),
                    x1 <= x < x2,
                    x2 <= w,
                    y1 <= y <= y2,
                    y2 <= h,
                    forall|i: int|
                        0 <= i < start.len() ==> #[trigger] self.image@[i] == if fill_progress(
                            i,
                            w as int,
                            x1 as int,
                            y1 as int,
                            y2 as int,
                            x as int,
                            y as int,
                            0,
                        ) {
                            colour@[i % 4]
                        } else {
                            start[i]
                        },
                decreases y2 - y,
            {
                let mut c: usize = 0;
                while c < CHANNELS
                    invariant
                        self.width == w,
                        self.height == h,
                        self.min == old(self).min,
                        self.max == old(self).max,
                        self.output == old(self).output,
                        start.len() == w * h * 4,
                        w * h * 4 <= usize::MAX,
                        self.image@.len() == start.len(),
                        x1 <= x < x2,
                        x2 <= w,
                        y1 <= y < y2,
                        y2 <= h,
                        c <= 4,
                        forall|i: int|
                            0 <= i < start.len() ==> #[trigger] self.image@[i] == if fill_progress(
                                i,
                                w as int,
                                x1 as int,
                                y1 as int,
                                y2 as int,
                                x as int,
                                y as int,
                                c as int,
                            ) {
                                colour@[i % 4]
                            } else {
                                start[i]
                            },
                    decreases 4 - c,
                {
                    proof {
                        lemma_pixel_index(w as int, h as int, x as int, y as int, c as int);
                    }
                    let k = (y * w + x) * 4 + c;
                    self.image[k] = colour[c];
                    proof {
                        assert forall|i: int| 0 <= i < start.len() implies #[trigger] self.image@[i]
                            == if fill_progress(
                            i,
                            w as int,
                            x1 as int,
                            y1 as int,
                            y2 as int,
                            x as int,
                            y as int,
                            c + 1,
                        ) {
                            colour@[i % 4]
                        } else {
                            start[i]
                        } by {
                            if i != k {
                                lemma_pixel_split(i, w as int);
                            }
                        }
                    }
                    c = c + 1;
                }
                y = y + 1;
            }
            x = x + 1;
        }
        assert(self.image@ =~= filled(
            start,
            w as int,
            x1 as int,
            x2 as int,
            y1 as int,
            y2 as int,
            colour@,
        ));
        Ok(())
    }

    /// The top row of the bar of a sample read as `reading`: the lowest row
    /// when the range is degenerate.
    fn top_row(&self, rise: Scaled) -> (r: usize)
        requires
            self.height > 0,
        ensures
            r as int == (if self.min.same_value(self.max) {
                self.height - 1
            } else {
                bar_top(self.height as int, rise)
            }),
            r < self.height,
    {
        if self.min.same_value_as(&self.max) {
            self.height - 1
        } else if rise.floor >= 0 && rise.floor as u64 >= self.height as u64 {
            0
        } else if rise.floor < 1 {
            self.height - 1
        } else {
            self.height - rise.floor as usize
        }
    }

    /// Draws the bar of the sample at `pos` of `total`, read as `reading`.
    fn draw_number(&mut self, total: usize, pos: usize, reading: Reading) -> (r: Result<(), SparkError>)
        requires
            old(self).wf(),
        ensures
            final(self).wf(),
            final(self).width == old(self).width,
            final(self).height == old(self).height,
            final(self).min == old(self).min,
            final(self).max == old(self).max,
            final(self).output == old(self).output,
            match old(self).drawn(total as int, pos as int, reading) {
                Ok(img) => r is Ok && final(self).image@ == img,
                Err(e) => r == Err::<(), SparkError>(e) && final(self).image@ == old(self).image@,
            },
    {
        if total == 0 || pos >= total || self.height == 0 {
            return Err(SparkError::InvariantViolation);
        }
        let band = quantize_reading(BAND_COUNT, &self.min, &self.max, reading.bucket)?;
        let colour = colour_of_band(band);
        let segment = self.width / total;
        proof {
            lemma_fundamental_div_mod(self.width as int, total as int);
            lemma_mod_pos_bound(self.width as int, total as int);
            assert(segment * (pos + 1) <= segment * total) by (nonlinear_arith)
                requires
                    pos + 1 <= total,
                    0 <= segment,
            ;
            assert(segment * (pos + 1) == segment * pos + segment) by (nonlinear_arith);
        }
        if segment < 2 {
            return Err(SparkError::InvariantViolation);
        }
        let x1 = segment * pos;
        let top = self.top_row(reading.rise);
        let h = self.height;
        let r = self.fill_bar(x1, x1 + segment, top, h, &colour);
        assert(self.image@ =~= old(self).image@ ==> self.wf());
        r
    }
}

impl SparkTheme for ImageTheme {
    open spec fn well_formed(&self) -> bool {
        self.wf()
    }

    open spec fn bounds(&self) -> (Sample, Sample) {
        (self.min, self.max)
    }

    open spec fn destination(&self) -> Option<OutputType> {
        self.output
    }

    /// The theme's name.
    fn name(&self) -> (r: &'static str)
        ensures
            r@ == "png"@,
    {
        "png"
    }

    /// The default extension of an output file.
    fn file_ext(&self) -> (r: &'static str)
        ensures
            r@ == "png"@,
    {
        "png"
    }

    /// Whether the destination and the file name go together.
    fn validate_output_options(&self, ot: Option<OutputType>, file: &Option<String>) -> (r:
        bool)
        ensures
            r == output_options_valid(ot, file is Some),
    {
        output_options_compatible(ot, file)
    }

    /// Binds the range and the destination for a rendering.
    fn start(&mut self, min: Sample, max: Sample, output: Option<OutputType>)
        ensures
            final(self).wf(),
            final(self).min == min,
            final(self).max == max,
            final(self).output == output,
            final(self).width == old(self).width,
            final(self).height == old(self).height,
            final(self).image == old(self).image,
    {
        self.min = min;
        self.max = max;
        self.output = output;
    }

    /// The range bound by `start`.
    fn minmax(&self) -> (r: (Sample, Sample))
        ensures
            r == (self.min, self.max),
    {
        (self.min, self.max)
    }

    /// Draws the bar of the sample at `pos` of `length`, read as `reading`;
    /// the theme has no text for a sample, so a drawn bar yields empty text.
    fn spark(&mut self, pos: usize, length: usize, reading: Reading) -> (r: Result<
        String,
        SparkError,
    >)
        ensures
            old(self).spark_outcome(*final(self), pos as int, length as int, reading, r),
    {
        self.draw_number(length, pos, reading)?;
        Ok(String::new())
    }

    /// Encodes the canvas as a PNG and returns the bytes to send to the
    /// bound destination; fails when the canvas is too large for the codec or
    /// the codec fails.
    fn end(&mut self) -> (r: Result<Vec<u8>, SparkError>)
        ensures
            *final(self) == *old(self),
            old(self).end_outcome(r),
    {
        // The buffer holds four bytes a pixel, so its length measures the canvas.
        if self.image.len() > 4 * MAX_ENCODED_PIXELS {
            return Err(SparkError::CanvasTooLarge);
        }
        image_result(encode_png(self.image.as_slice(), self.width, self.height), self.output)
    }
}

/// What rendering to `output` ends with, for each outcome of the encoder:
/// the bytes that carry the PNG there, or the codec's error code.
pub fn image_result(encoded: Result<Vec<u8>, u32>, output: Option<OutputType>) -> (r: Result<
    Vec<u8>,
    SparkError,
>)
    ensures
        match encoded {
            Ok(png) => r is Ok && r->Ok_0@ == payload_of(png@, output),
            Err(code) => r == Err::<Vec<u8>, SparkError>(SparkError::Encode(code)),
        },
{
    match encoded {
        Ok(png) => Ok(image_payload(&png, output)),
        Err(code) => Err(SparkError::Encode(code)),
    }
}

/// The bytes that carry an encoded PNG image to `output`: the image itself
/// for a file, else an inline-image escape sequence around its base64 text.
pub fn image_payload(png: &Vec<u8>, output: Option<OutputType>) -> (r: Vec<u8>)
    ensures
        r@ == payload_of(png@, output),
{
    if output == Some(OutputType::File) {
        return png.clone();
    }
    let mut r: Vec<u8> = vec![
        0x1Bu8, 0x5Du8, 0x31u8, 0x33u8, 0x33u8, 0x37u8, 0x3Bu8, 0x46u8, 0x69u8, 0x6Cu8, 0x65u8,
        0x3Du8, 0x69u8, 0x6Eu8, 0x6Cu8, 0x69u8, 0x6Eu8, 0x65u8, 0x3Du8, 0x31u8, 0x3Au8,
    ];
    assert(r@ =~= inline_image_prefix());
    let mut text = to_base64(png.as_slice());
    r.append(&mut text);
    r.push(7u8);
    r
}

} // verus!
