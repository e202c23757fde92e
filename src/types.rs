use vstd::prelude::*;

use crate::range::Sample;

verus! {

/// Where a rendered sparkline goes.
#[derive(Clone, Copy, Debug, PartialEq, Eq, Structural)]
pub enum OutputType {
    File,
    Pipe,
    Console,
}

/// What can go wrong while forming a range or rendering.
#[derive(Clone, Copy, Debug, PartialEq, Eq, Structural)]
pub enum SparkError {
    /// No sample to derive a bound from, and no override for it.
    EmptyInput,
    /// A sample is infinite or NaN.
    NonFinite,
    /// An output destination that contradicts the file name given.
    InvalidOutputCombination,
    /// A value falls outside the bounds, so no bucket holds it.
    IndexOutOfRange,
    /// The geometry of a bar leaves nothing to draw.
    InvariantViolation,
    /// The canvas holds more pixels than the image codec takes.
    CanvasTooLarge,
    /// The image codec failed, with its error code.
    Encode(u32),
    /// The output sink refused a write.
    SinkWrite,
}

/// A destination and the presence of a file name go together unless a file
/// name is given with a pipe or console destination.
pub open spec fn output_options_valid(ot: Option<OutputType>, has_file: bool) -> bool {
    !(has_file && (ot == Some(OutputType::Pipe) || ot == Some(OutputType::Console)))
}

/// Checks a destination against an optional file name.
pub fn output_options_compatible(ot: Option<OutputType>, file: &Option<String>) -> (r: bool)
    ensures
        r == output_options_valid(ot, file is Some),
{
    match (ot, file.is_some()) {
        (Some(OutputType::File), true) => true,
        (Some(OutputType::File), false) => true,
        (Some(OutputType::Pipe), false) => true,
        (Some(OutputType::Console), false) => true,
        (Some(_), true) => false,
        (None, true) => true,
        (None, false) => true,
    }
}

/// The destination that output really goes to: a file name implies a file.
pub fn effective_output(ot: Option<OutputType>, file: &Option<String>) -> (r: Option<OutputType>)
    ensures
        r == (if file is Some {
            Some(OutputType::File)
        } else {
            ot
        }),
{
    if file.is_some() {
        Some(OutputType::File)
    } else {
        ot
    }
}

/// A rendering backend. A rendering binds a range and a destination with
/// `start`, renders each sample in turn with `spark`, and finishes with `end`,
/// which returns the bytes, if any, still to be sent to the destination.
pub trait SparkTheme {
    /// The state that the theme keeps between calls.
    spec fn well_formed(&self) -> bool;

    /// The range bound by `start`.
    spec fn bounds(&self) -> (Sample, Sample);

    /// The destination bound by `start`.
    spec fn destination(&self) -> Option<OutputType>;

    /// The identifier the theme is selected by.
    fn name(&self) -> (r: &'static str);

    /// The default extension of an output file.
    fn file_ext(&self) -> (r: &'static str);

    /// Whether the destination and the file name go together; to be checked
    /// before `start`.
    fn validate_output_options(&self, ot: Option<OutputType>, file: &Option<String>) -> (r: bool)
        ensures
            r == output_options_valid(ot, file is Some),
    ;

    /// Binds the range and the destination for a rendering.
    fn start(&mut self, min: Sample, max: Sample, output: Option<OutputType>)
        requires
            old(self).well_formed(),
        ensures
            final(self).well_formed(),
            final(self).bounds() == (min, max),
            final(self).destination() == output,
    ;

    /// Renders the sample at `pos` of `length`, read as `reading`, and
    /// returns its text.
    fn spark(&mut self, pos: usize, length: usize, reading: Reading) -> (r: Result<String, SparkError>)
        requires
            old(self).well_formed(),
        ensures
            final(self).well_formed(),
            final(self).bounds() == old(self).bounds(),
            final(self).destination() == old(self).destination(),
    ;

    /// Finishes the rendering, returning what is left to send.
    fn end(&mut self) -> (r: Result<Vec<u8>, SparkError>)
        requires
            old(self).well_formed(),
    ;

    /// The range bound by `start`.
    fn minmax(&self) -> (r: (Sample, Sample))
        ensures
            r == self.bounds(),
    ;
}

/// A real quantity, measured by the caller: the greatest integer not above it,
/// and whether the quantity lies strictly above that integer.
#[derive(Clone, Copy, Debug, PartialEq, Eq, Structural)]
pub struct Scaled {
    pub floor: i64,
    pub above: bool,
}

/// What a theme reads of one sample, given its proportion `p` within the
/// bound range: `bucket` is `p` times the theme's bucket count, and `rise` the
/// height in pixels of the sample above the minimum (for raster themes).
#[derive(Clone, Copy, Debug, PartialEq, Eq, Structural)]
pub struct Reading {
    pub bucket: Scaled,
    pub rise: Scaled,
}

/// The bucket, among `count`, that a scaled proportion falls into: its floor,
/// except that a quantity exactly equal to `count` (a value at the maximum)
/// goes to the last bucket. `None` when no bucket holds it.
pub open spec fn bucket_for(count: int, s: Scaled) -> Option<int> {
    if 0 <= s.floor < count {
        Some(s.floor as int)
    } else if s.floor == count && !s.above && count > 0 {
        Some(count - 1)
    } else {
        None
    }
}

/// The bucket, among `count`, that a scaled proportion falls into.
pub fn bucket_index(count: usize, s: Scaled) -> (r: Result<usize, SparkError>)
    ensures
        match bucket_for(count as int, s) {
            Some(i) => r == Ok::<usize, SparkError>(i as usize),
            None => r == Err::<usize, SparkError>(SparkError::IndexOutOfRange),
        },
{
    if 0 <= s.floor && (s.floor as u64) < (count as u64) {
        Ok(s.floor as usize)
    } else if 0 < count && s.floor as u64 == count as u64 && 0 <= s.floor && !s.above {
        Ok(count - 1)
    } else {
        Err(SparkError::IndexOutOfRange)
    }
}

/// A value at the maximum fills the last bucket, not one past it, while
/// any value below the maximum keeps the bucket of its floor.
pub proof fn lemma_maximum_takes_last_bucket(count: int, s: Scaled)
    requires
        count > 0,
    ensures
        s.floor == count && !s.above ==> bucket_for(count, s) == Some(count - 1),
        0 <= s.floor < count ==> bucket_for(count, s) == Some(s.floor as int),
        bucket_for(count, s) is Some ==> 0 <= bucket_for(count, s)->Some_0 < count,
{
}

/// With a degenerate range every sample, whatever its reading, goes to the
/// lowest bucket; no reading is consulted, so none can be NaN or infinite.
pub proof fn lemma_degenerate_range_lowest_bucket(count: int, min: Sample, max: Sample, s: Scaled)
    requires
        count > 0,
        min.same_value(max),
    ensures
        quantize(count, min, max, s) == Some(0int),
{
}

/// The bucket, among `count`, of a sample read against the range
/// `[min, max]`. A degenerate range (`min` equal to `max` as numbers) has no
/// proportions: every sample goes to the lowest bucket.
pub open spec fn quantize(count: int, min: Sample, max: Sample, s: Scaled) -> Option<int> {
    if min.same_value(max) {
        if count > 0 {
            Some(0)
        } else {
            None
        }
    } else {
        bucket_for(count, s)
    }
}

/// The bucket, among `count`, of a sample read against the range `[min, max]`.
pub fn quantize_reading(count: usize, min: &Sample, max: &Sample, s: Scaled) -> (r: Result<
    usize,
    SparkError,
>)
    ensures
        match quantize(count as int, *min, *max, s) {
            Some(i) => r == Ok::<usize, SparkError>(i as usize),
            None => r == Err::<usize, SparkError>(SparkError::IndexOutOfRange),
        },
{
    if min.same_value_as(max) {
        if count > 0 {
            Ok(0)
        } else {
            Err(SparkError::IndexOutOfRange)
        }
    } else {
        bucket_index(count, s)
    }
}

} // verus!
