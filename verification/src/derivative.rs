//! The derivative cache: when an existing derivative is reused, and what
//! the conversion tool is asked to do when it is not.

use vstd::prelude::*;

verus! {

/// Name of the conversion tool.
pub const CONVERSION_TOOL: &'static str = "magick";

/// Asks the tool to strip the metadata.
pub const STRIP_FLAG: &'static str = "-strip";

/// Announces the quality.
pub const QUALITY_FLAG: &'static str = "-quality";

/// Quality of a thumbnail.
pub const THUMBNAIL_QUALITY: &'static str = "65%";

/// Announces the bound on the size.
pub const RESIZE_FLAG: &'static str = "-resize";

/// The box that a thumbnail is fitted into, width by height in pixels:
/// neither edge, and so not the longer one, exceeds 512.
pub const THUMBNAIL_EDGE: &'static str = "512x512";

/// Announces the chroma subsampling.
pub const SAMPLING_FLAG: &'static str = "-sampling-factor";

/// Chroma subsampling of every derivative.
pub const SAMPLING_FACTOR: &'static str = "4:2:0";

/// What to do about one derivative of one photo.
#[derive(Clone, Debug, PartialEq, Eq)]
pub enum DerivativePlan {
    /// The derivative on disk is valid: leave it.
    Reuse,
    /// Run the conversion tool with these arguments.
    Convert(Vec<String>),
}

/// A derivative is valid when it exists and was modified strictly later
/// than its source. `derivative_modified` is `None` for a derivative that
/// does not exist; times count from any one fixed instant.
pub open spec fn is_valid(derivative_modified: Option<i128>, source_modified: i128) -> bool {
    derivative_modified matches Some(modified) && modified > source_modified
}

/// Whether the derivative on disk can be reused.
pub fn is_cache_valid(derivative_modified: Option<i128>, source_modified: i128) -> (r: bool)
    ensures
        r == is_valid(derivative_modified, source_modified),
{
    match derivative_modified {
        Some(modified) => modified > source_modified,
        None => false,
    }
}

/// The arguments of a conversion: the source, metadata stripped, for a
/// thumbnail the reduced quality and the box that bounds both edges, the
/// chroma subsampling, the destination.
pub open spec fn conversion_arguments_of(input: Seq<char>, output: Seq<char>, thumbnail: bool) -> Seq<
    Seq<char>,
> {
    seq![input, STRIP_FLAG@] + (if thumbnail {
        seq![QUALITY_FLAG@, THUMBNAIL_QUALITY@, RESIZE_FLAG@, THUMBNAIL_EDGE@]
    } else {
        Seq::empty()
    }) + seq![SAMPLING_FLAG@, SAMPLING_FACTOR@, output]
}

/// The arguments with which the conversion tool makes `output` from `input`.
pub fn conversion_arguments(input: &str, output: &str, thumbnail: bool) -> (r: Vec<String>)
    ensures
        r.deep_view() == conversion_arguments_of(input@, output@, thumbnail),
{
    let mut r: Vec<String> = Vec::new();
    r.push(input.to_owned());
    r.push(STRIP_FLAG.to_owned());
    if thumbnail {
        r.push(QUALITY_FLAG.to_owned());
        r.push(THUMBNAIL_QUALITY.to_owned());
        r.push(RESIZE_FLAG.to_owned());
        r.push(THUMBNAIL_EDGE.to_owned());
    }
    r.push(SAMPLING_FLAG.to_owned());
    r.push(SAMPLING_FACTOR.to_owned());
    r.push(output.to_owned());
    proof {
        assert(r.deep_view() =~= conversion_arguments_of(input@, output@, thumbnail));
    }
    r
}

/// The plan that `generate_image` makes.
pub open spec fn plan_of(
    input: Seq<char>,
    output: Seq<char>,
    thumbnail: bool,
    derivative_modified: Option<i128>,
    source_modified: i128,
) -> Option<Seq<Seq<char>>> {
    if is_valid(derivative_modified, source_modified) {
        None
    } else {
        Some(conversion_arguments_of(input, output, thumbnail))
    }
}

/// Decides about the derivative `output` of the photo `input`: the
/// thumbnail where `THUMBNAIL` holds, the display-size derivative where not.
/// A derivative that exists and is strictly newer than the source is reused;
/// any other is converted anew.
pub fn generate_image<const THUMBNAIL: bool>(
    input: &str,
    output: &str,
    derivative_modified: Option<i128>,
    source_modified: i128,
) -> (r: DerivativePlan)
    ensures
        match r {
            DerivativePlan::Reuse => plan_of(
                input@,
                output@,
                THUMBNAIL,
                derivative_modified,
                source_modified,
            ) is None,
            DerivativePlan::Convert(arguments) => plan_of(
                input@,
                output@,
                THUMBNAIL,
                derivative_modified,
                source_modified,
            ) == Some(arguments.deep_view()),
        },
{
    if is_cache_valid(derivative_modified, source_modified) {
        DerivativePlan::Reuse
    } else {
        DerivativePlan::Convert(conversion_arguments(input, output, THUMBNAIL))
    }
}

/// A source that was saved again, so that it is as new as its derivatives
/// or newer, has both derivatives converted anew.
pub proof fn lemma_touched_source_is_converted(
    input: Seq<char>,
    thumbnail: Seq<char>,
    display: Seq<char>,
    thumbnail_modified: i128,
    display_modified: i128,
    source_modified: i128,
)
    requires
        source_modified >= thumbnail_modified,
        source_modified >= display_modified,
    ensures
        plan_of(input, thumbnail, true, Some(thumbnail_modified), source_modified) is Some,
        plan_of(input, display, false, Some(display_modified), source_modified) is Some,
{
}

/// A derivative that was written after its source, and a source that was
/// left alone since, is reused: a second run converts nothing.
pub proof fn lemma_untouched_source_is_reused(
    input: Seq<char>,
    output: Seq<char>,
    thumbnail: bool,
    derivative_modified: i128,
    source_modified: i128,
)
    requires
        derivative_modified > source_modified,
    ensures
        plan_of(input, output, thumbnail, Some(derivative_modified), source_modified) is None,
{
}

} // verus!
