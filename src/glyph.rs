use vstd::prelude::*;

use crate::range::Sample;
use crate::types::{
    output_options_compatible, output_options_valid, quantize, quantize_reading, OutputType,
    Reading, SparkError, SparkTheme,
};

verus! {

/// Terminal escape that turns the foreground green.
pub const GREEN: &'static str = "\x1B[0;32m";

/// Terminal escape that turns the foreground yellow.
pub const YELLOW: &'static str = "\x1B[0;33m";

/// Terminal escape that turns the foreground red.
pub const RED: &'static str = "\x1B[0;31m";

/// Terminal escape that restores the default colours.
pub const RESET: &'static str = "\x1B[0m";

/// The number of glyphs in a block-element palette.
pub const GLYPH_COUNT: usize = 8;

/// The block element of bucket `i`, lowest first.
pub open spec fn glyph(i: int) -> char {
    if i == 0 {
        '▁'
    } else if i == 1 {
        '▂'
    } else if i == 2 {
        '▃'
    } else if i == 3 {
        '▄'
    } else if i == 4 {
        '▅'
    } else if i == 5 {
        '▆'
    } else if i == 6 {
        '▇'
    } else {
        '█'
    }
}

/// A glyph wrapped in the colour of its bucket: the two lowest green, the
/// four middle ones yellow, the two highest red; any other text unchanged.
pub open spec fn colorised(x: Seq<char>) -> Seq<char> {
    if x == seq![glyph(0)] || x == seq![glyph(1)] {
        GREEN@ + x + RESET@
    } else if x == seq![glyph(2)] || x == seq![glyph(3)] || x == seq![glyph(4)] || x == seq![
        glyph(5),
    ] {
        YELLOW@ + x + RESET@
    } else if x == seq![glyph(6)] || x == seq![glyph(7)] {
        RED@ + x + RESET@
    } else {
        x
    }
}

/// Wraps a block-element glyph in the terminal colour of its bucket.
pub fn colorise(x: &str) -> (r: String)
    ensures
        r@ == colorised(x@),
{
    if x.unicode_len() == 1 {
        let c = x.get_char(0);
        assert(x@ =~= seq![c]);
        if c == '▁' || c == '▂' {
            return String::from_str(GREEN).concat(x).concat(RESET);
        } else if c == '▃' || c == '▄' || c == '▅' || c == '▆' {
            return String::from_str(YELLOW).concat(x).concat(RESET);
        } else if c == '▇' || c == '█' {
            return String::from_str(RED).concat(x).concat(RESET);
        }
    }
    String::from_str(x)
}

/// The block element of bucket `i`, as text.
fn glyph_text(i: usize) -> (r: &'static str)
    requires
        i < GLYPH_COUNT,
    ensures
        r@ == seq![glyph(i as int)],
{
    proof {
        reveal_strlit("▁");
        reveal_strlit("▂");
        reveal_strlit("▃");
        reveal_strlit("▄");
        reveal_strlit("▅");
        reveal_strlit("▆");
        reveal_strlit("▇");
        reveal_strlit("█");
    }
    let r = if i == 0 {
        "▁"
    } else if i == 1 {
        "▂"
    } else if i == 2 {
        "▃"
    } else if i == 3 {
        "▄"
    } else if i == 4 {
        "▅"
    } else if i == 5 {
        "▆"
    } else if i == 6 {
        "▇"
    } else {
        "█"
    };
    assert(r@ =~= seq![glyph(i as int)]);
    r
}

/// The eight block elements, lowest first.
pub fn classic_sparks() -> (r: Vec<String>)
    ensures
        r@.len() == GLYPH_COUNT,
        forall|i: int| 0 <= i < GLYPH_COUNT ==> #[trigger] r@[i]@ == seq![glyph(i)],
{
    let mut r: Vec<String> = Vec::new();
    let mut i: usize = 0;
    while i < GLYPH_COUNT
        invariant
            i <= GLYPH_COUNT,
            r@.len() == i,
            forall|j: int| 0 <= j < i ==> #[trigger] r@[j]@ == seq![glyph(j)],
        decreases GLYPH_COUNT - i,
    {
        r.push(String::from_str(glyph_text(i)));
        i = i + 1;
    }
    r
}

/// The eight block elements, lowest first, each in the colour of its bucket.
pub fn colour_sparks() -> (r: Vec<String>)
    ensures
        r@.len() == GLYPH_COUNT,
        forall|i: int| 0 <= i < GLYPH_COUNT ==> #[trigger] r@[i]@ == colorised(seq![glyph(i)]),
{
    let mut r: Vec<String> = Vec::new();
    let mut i: usize = 0;
    while i < GLYPH_COUNT
        invariant
            i <= GLYPH_COUNT,
            r@.len() == i,
            forall|j: int| 0 <= j < i ==> #[trigger] r@[j]@ == colorised(seq![glyph(j)]),
        decreases GLYPH_COUNT - i,
    {
        r.push(colorise(glyph_text(i)));
        i = i + 1;
    }
    r
}

/// A theme that maps each sample to one glyph of an ordered palette.
pub struct MappingTheme {
    pub sparks: Vec<String>,
    pub name: &'static str,
    pub min: Sample,
    pub max: Sample,
    pub output: Option<OutputType>,
}

impl MappingTheme {
    pub open spec fn spec_name(&self) -> Seq<char> {
        self.name@
    }

    /// The glyph that a sample read as `reading` renders to, against the
    /// bound range; `None` when no bucket holds it.
    pub open spec fn glyph_for(&self, reading: Reading) -> Option<Seq<char>> {
        match quantize(self.sparks@.len() as int, self.min, self.max, reading.bucket) {
            Some(i) => Some(self.sparks@[i]@),
            None => None,
        }
    }

    /// `r` is the result of rendering a sample read as `reading`: its glyph,
    /// or the error when no bucket holds it.
    pub open spec fn glyph_outcome(&self, reading: Reading, r: Result<String, SparkError>) -> bool {
        match self.glyph_for(reading) {
            Some(g) => r is Ok && r->Ok_0@ == g,
            None => r == Err::<String, SparkError>(SparkError::IndexOutOfRange),
        }
    }

    /// A theme named `name` over the palette `sparks`, with zero bounds and
    /// no destination.
    pub fn new(name: &'static str, sparks: Vec<String>) -> (r: MappingTheme)
        ensures
            r.spec_name() == name@,
            r.sparks == sparks,
            r.min == (Sample { bits: 0 }),
            r.max == (Sample { bits: 0 }),
            r.output is None,
    {
        MappingTheme { sparks, name, min: Sample { bits: 0 }, max: Sample { bits: 0 }, output: None }
    }
}

/// With a degenerate range every sample renders as the first glyph of the
/// palette.
pub proof fn lemma_degenerate_range_first_glyph(theme: MappingTheme, reading: Reading)
    requires
        theme.sparks@.len() > 0,
        theme.min.same_value(theme.max),
    ensures
        theme.glyph_for(reading) == Some(theme.sparks@[0]@),
{
}

/// A sample at the maximum of a proper range renders as the last glyph.
pub proof fn lemma_maximum_renders_last_glyph(theme: MappingTheme, reading: Reading)
    requires
        theme.sparks@.len() > 0,
        !theme.min.same_value(theme.max),
        reading.bucket.floor == theme.sparks@.len(),
        !reading.bucket.above,
    ensures
        theme.glyph_for(reading) == Some(theme.sparks@[theme.sparks@.len() - 1]@),
{
}

impl SparkTheme for MappingTheme {
    open spec fn well_formed(&self) -> bool {
        true
    }

    open spec fn bounds(&self) -> (Sample, Sample) {
        (self.min, self.max)
    }

    open spec fn destination(&self) -> Option<OutputType> {
        self.output
    }

    /// The theme's name.
    fn name(&self) -> (r: &'static str)
        ensures
            r@ == self.spec_name(),
    {
        self.name
    }

    /// The default extension of an output file.
    fn file_ext(&self) -> (r: &'static str)
        ensures
            r@ == "txt"@,
    {
        "txt"
    }

    /// Whether the destination and the file name go together.
    fn validate_output_options(&self, ot: Option<OutputType>, file: &Option<String>) -> (r:
        bool)
        ensures
            r == output_options_valid(ot, file is Some),
    {
        output_options_compatible(ot, file)
    }

    /// Binds the range and the destination for a rendering.
    fn start(&mut self, min: Sample, max: Sample, output: Option<OutputType>)
        ensures
            final(self).min == min,
            final(self).max == max,
            final(self).output == output,
            final(self).name == old(self).name,
            final(self).sparks == old(self).sparks,
    {
        self.min = min;
        self.max = max;
        self.output = output;
    }

    /// The range bound by `start`.
    fn minmax(&self) -> (r: (Sample, Sample))
        ensures
            r == (self.min, self.max),
    {
        (self.min, self.max)
    }

    /// The glyph of one sample; the position plays no part.
    fn spark(&mut self, pos: usize, length: usize, reading: Reading) -> (r: Result<String, SparkError>)
        ensures
            *final(self) == *old(self),
            old(self).glyph_outcome(reading, r),
    {
        let index = quantize_reading(self.sparks.len(), &self.min, &self.max, reading.bucket)?;
        Ok(self.sparks[index].clone())
    }

    /// Nothing is buffered: nothing is left to send.
    fn end(&mut self) -> (r: Result<Vec<u8>, SparkError>)
        ensures
            *final(self) == *old(self),
            r is Ok && r->Ok_0@.len() == 0,
    {
        Ok(Vec::new())
    }
}

} // verus!
