use vstd::prelude::*;

use crate::glyph::{classic_sparks, colorised, colour_sparks, glyph, MappingTheme, GLYPH_COUNT};
use crate::image::{ImageTheme, BAND_COUNT};
use crate::range::Sample;
use crate::types::{OutputType, Reading, SparkError, SparkTheme};

verus! {

/// The canvas width of the raster theme, in pixels.
pub const CANVAS_WIDTH: usize = 200;

/// The canvas height of the raster theme, in pixels.
pub const CANVAS_HEIGHT: usize = 30;

/// One of the rendering backends.
pub enum Theme {
    Mapping(MappingTheme),
    Image(ImageTheme),
}

/// The palette holds the eight block elements, lowest first.
pub open spec fn is_classic_palette(sparks: Seq<String>) -> bool {
    &&& sparks.len() == GLYPH_COUNT
    &&& forall|i: int| 0 <= i < GLYPH_COUNT ==> #[trigger] sparks[i]@ == seq![glyph(i)]
}

/// The palette holds the eight block elements, lowest first, each in the
/// colour of its bucket.
pub open spec fn is_colour_palette(sparks: Seq<String>) -> bool {
    &&& sparks.len() == GLYPH_COUNT
    &&& forall|i: int| 0 <= i < GLYPH_COUNT ==> #[trigger] sparks[i]@ == colorised(seq![glyph(i)])
}

/// The key selects the colour theme.
pub open spec fn names_colour(key: Seq<char>) -> bool {
    key == "colour"@ || key == "color"@
}

/// The key names one of the themes.
pub open spec fn known_theme(key: Seq<char>) -> bool {
    names_colour(key) || key == "png"@ || key == "classic"@
}

/// Whether two texts are equal.
fn same_text(a: &str, b: &str) -> (r: bool)
    ensures
        r == (a@ == b@),
{
    let n = a.unicode_len();
    if n != b.unicode_len() {
        return false;
    }
    let mut i: usize = 0;
    while i < n
        invariant
            n == a@.len(),
            n == b@.len(),
            i <= n,
            forall|j: int| 0 <= j < i ==> a@[j] == b@[j],
        decreases n - i,
    {
        if a.get_char(i) != b.get_char(i) {
            return false;
        }
        i = i + 1;
    }
    assert(a@ =~= b@);
    true
}

/// Whether `key` names one of the themes; any other key selects the classic
/// theme.
pub fn is_known_theme(key: &str) -> (r: bool)
    ensures
        r == known_theme(key@),
{
    same_text(key, "colour") || same_text(key, "color") || same_text(key, "png") || same_text(
        key,
        "classic",
    )
}

/// The theme that `key` selects, freshly made: `"colour"` (or `"color"`)
/// gives the coloured glyphs, `"png"` a blank 200 by 30 canvas, and any other
/// key the classic glyphs.
pub fn select_sparkline(key: &str) -> (r: Theme)
    ensures
        r.well_formed(),
        r.bounds() == (Sample { bits: 0 }, Sample { bits: 0 }),
        r.destination() is None,
        names_colour(key@) ==> (r matches Theme::Mapping(m) && m.name@ == "colour"@
            && is_colour_palette(m.sparks@)),
        key@ == "png"@ ==> (r matches Theme::Image(t) && t.width == CANVAS_WIDTH && t.height
            == CANVAS_HEIGHT),
        key@ == "png"@ ==> (r matches Theme::Image(t) && forall|i: int| 0 <= i < t.image@.len() ==> #[trigger] t.image@[i]
            == 0),
        !names_colour(key@) && key@ != "png"@ ==> (r matches Theme::Mapping(m) && m.name@
            == "classic"@ && is_classic_palette(m.sparks@)),
{
    proof {
        reveal_strlit("png");
        reveal_strlit("colour");
        reveal_strlit("color");
        assert("png"@.len() == 3);
        assert("colour"@.len() == 6);
        assert("color"@.len() == 5);
    }
    if same_text(key, "colour") || same_text(key, "color") {
        Theme::Mapping(MappingTheme::new("colour", colour_sparks()))
    } else if same_text(key, "png") {
        Theme::Image(ImageTheme::new(CANVAS_WIDTH, CANVAS_HEIGHT))
    } else {
        Theme::Mapping(MappingTheme::new("classic", classic_sparks()))
    }
}

/// The file written when a file destination is given without a name:
/// `sparkline.` and the theme's extension.
pub fn default_file_name(theme: &Theme) -> (r: String)
    ensures
        r@ == "sparkline."@ + theme.ext_spec(),
{
    String::from_str("sparkline.").concat(theme.file_ext())
}

/// The text put between rendered glyphs: `gap` spaces, one by default.
pub fn gap_string(gap: Option<usize>) -> (r: String)
    ensures
        r@ == Seq::new(
            match gap {
                Some(n) => n as nat,
                None => 1,
            },
            |i: int| ' ',
        ),
{
    let n = match gap {
        Some(n) => n,
        None => 1,
    };
    let mut r = String::new();
    let mut i: usize = 0;
    while i < n
        invariant
            i <= n,
            r@ == Seq::new(i as nat, |j: int| ' '),
        decreases n - i,
    {
        proof {
            reveal_strlit(" ");
        }
        r.append(" ");
        assert(r@ =~= Seq::new((i + 1) as nat, |j: int| ' '));
        i = i + 1;
    }
    r
}

impl Theme {
    /// The number of buckets that a sample's proportion is scaled by in its
    /// reading: glyphs of the palette, or colour bands of the canvas.
    pub fn bucket_count(&self) -> (r: usize)
        ensures
            r == match self {
                Theme::Mapping(m) => m.sparks@.len(),
                Theme::Image(_) => BAND_COUNT as nat,
            },
    {
        match self {
            Theme::Mapping(m) => m.sparks.len(),
            Theme::Image(_) => BAND_COUNT,
        }
    }

    /// The height in pixels that a sample's rise is measured in: the
    /// canvas height, or zero for a theme without a canvas.
    pub fn canvas_height(&self) -> (r: usize)
        ensures
            r == match self {
                Theme::Mapping(_) => 0,
                Theme::Image(t) => t.height,
            },
    {
        match self {
            Theme::Mapping(_) => 0,
            Theme::Image(t) => t.height,
        }
    }

    /// The default extension of an output file.
    pub open spec fn ext_spec(&self) -> Seq<char> {
        match self {
            Theme::Mapping(_) => "txt"@,
            Theme::Image(_) => "png"@,
        }
    }
}

impl SparkTheme for Theme {
    open spec fn well_formed(&self) -> bool {
        match self {
            Theme::Mapping(m) => m.well_formed(),
            Theme::Image(t) => t.well_formed(),
        }
    }

    open spec fn bounds(&self) -> (Sample, Sample) {
        match self {
            Theme::Mapping(m) => m.bounds(),
            Theme::Image(t) => t.bounds(),
        }
    }

    open spec fn destination(&self) -> Option<OutputType> {
        match self {
            Theme::Mapping(m) => m.destination(),
            Theme::Image(t) => t.destination(),
        }
    }

    fn name(&self) -> (r: &'static str)
        ensures
            r@ == match self {
                Theme::Mapping(m) => m.spec_name(),
                Theme::Image(_) => "png"@,
            },
    {
        match self {
            Theme::Mapping(m) => m.name(),
            Theme::Image(t) => t.name(),
        }
    }

    fn file_ext(&self) -> (r: &'static str)
        ensures
            r@ == self.ext_spec(),
    {
        match self {
            Theme::Mapping(m) => m.file_ext(),
            Theme::Image(t) => t.file_ext(),
        }
    }

    fn validate_output_options(&self, ot: Option<OutputType>, file: &Option<String>) -> (r: bool) {
        match self {
            Theme::Mapping(m) => m.validate_output_options(ot, file),
            Theme::Image(t) => t.validate_output_options(ot, file),
        }
    }

    fn start(&mut self, min: Sample, max: Sample, output: Option<OutputType>)
        ensures
            match (*old(self), *final(self)) {
                (Theme::Mapping(a), Theme::Mapping(b)) => b.sparks == a.sparks && b.name == a.name,
                (Theme::Image(a), Theme::Image(b)) => b.width == a.width && b.height == a.height
                    && b.image == a.image,
                _ => false,
            },
    {
        match self {
            Theme::Mapping(m) => m.start(min, max, output),
            Theme::Image(t) => t.start(min, max, output),
        }
    }

    fn spark(&mut self, pos: usize, length: usize, reading: Reading) -> (r: Result<String, SparkError>)
        ensures
            match (*old(self), *final(self)) {
                (Theme::Mapping(a), Theme::Mapping(b)) => b == a && a.glyph_outcome(reading, r),
                (Theme::Image(a), Theme::Image(b)) => a.spark_outcome(
                    b,
                    pos as int,
                    length as int,
                    reading,
                    r,
                ),
                _ => false,
            },
    {
        match self {
            Theme::Mapping(m) => m.spark(pos, length, reading),
            Theme::Image(t) => t.spark(pos, length, reading),
        }
    }

    fn end(&mut self) -> (r: Result<Vec<u8>, SparkError>)
        ensures
            *final(self) == *old(self),
            match *old(self) {
                Theme::Mapping(_) => r is Ok && r->Ok_0@.len() == 0,
                Theme::Image(t) => t.end_outcome(r),
            },
    {
        match self {
            Theme::Mapping(m) => m.end(),
            Theme::Image(t) => t.end(),
        }
    }

    fn minmax(&self) -> (r: (Sample, Sample)) {
        match self {
            Theme::Mapping(m) => m.minmax(),
            Theme::Image(t) => t.minmax(),
        }
    }
}

} // verus!
