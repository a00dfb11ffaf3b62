//! One source image and where its derivatives live.

use vstd::prelude::*;
use crate::metadata::{
    capture_time,
    capture_time_of,
    exif_primary_field,
    MetadataError,
    CAPTURE_OFFSET_TAG,
    CAPTURE_TIME_TAG,
};
use crate::options::Options;
use crate::paths::{file_name, join, path_file_name, path_join, path_with_extension, with_extension};
use crate::time::Timestamp;

verus! {

/// The extension that every derivative file carries.
pub const DERIVATIVE_EXTENSION: &'static str = "jpg";

/// One source image of a run.
#[derive(Clone, Debug, PartialEq, Eq)]
pub struct Photo {
    /// Location of the source file.
    pub original_path: String,
    /// Local wall-clock capture time, at the photo's own offset.
    pub captured_at: Timestamp,
    /// Where the thumbnail derivative is written.
    pub thumbnail_path: String,
    /// Where the display-size derivative is written.
    pub display_path: String,
}

/// Why a file could not be taken up as a photo.
#[derive(Clone, Copy, Debug, PartialEq, Eq, Structural)]
pub enum PhotoError {
    /// The capture time could not be had.
    Metadata(MetadataError),
    /// The path of the file does not end in a file name.
    NoFileName,
}

/// The path of the derivative of `input` in the directory `dir`: the file
/// name of `input` in `dir`, with the derivative extension in place of its
/// own. `None` where `input` does not end in a file name.
pub open spec fn derivative_path_of(input: Seq<char>, dir: Seq<char>) -> Option<Seq<char>> {
    match path_file_name(input) {
        Some(name) => Some(path_with_extension(path_join(dir, name), DERIVATIVE_EXTENSION@)),
        None => None,
    }
}

/// The directory of the thumbnails where `thumbnail` holds, that of the
/// display-size derivatives where not.
pub open spec fn derivative_dir(options: Options, thumbnail: bool) -> Seq<char> {
    if thumbnail {
        options.thumbnail_dir@
    } else {
        options.img_dir@
    }
}

impl Photo {
    /// The photo that `new` makes from a path, the bytes of the file and the
    /// options: its capture time from the bytes, its two derivative paths
    /// from the path. A capture time that cannot be had goes first.
    pub open spec fn new_spec(path: Seq<char>, container: Seq<u8>, options: Options) -> Result<
        (Timestamp, Seq<char>, Seq<char>),
        PhotoError,
    > {
        match capture_time_of(
            exif_primary_field(container, CAPTURE_TIME_TAG),
            exif_primary_field(container, CAPTURE_OFFSET_TAG),
        ) {
            Err(e) => Err(PhotoError::Metadata(e)),
            Ok(captured_at) => match (
                derivative_path_of(path, options.thumbnail_dir@),
                derivative_path_of(path, options.img_dir@),
            ) {
                (Some(thumbnail), Some(display)) => Ok((captured_at, thumbnail, display)),
                _ => Err(PhotoError::NoFileName),
            },
        }
    }

    /// Takes up the file at `path`, whose bytes are `container`, as a photo.
    pub fn new(path: String, container: &[u8], options: &Options) -> (r: Result<Photo, PhotoError>)
        ensures
            match r {
                Ok(photo) => Self::new_spec(path@, container@, *options) == Ok::<
                    (Timestamp, Seq<char>, Seq<char>),
                    PhotoError,
                >((photo.captured_at, photo.thumbnail_path@, photo.display_path@))
                    && photo.original_path@ == path@,
                Err(e) => Self::new_spec(path@, container@, *options) == Err::<
                    (Timestamp, Seq<char>, Seq<char>),
                    PhotoError,
                >(e),
            },
    {
        let captured_at = match capture_time(container) {
            Ok(captured_at) => captured_at,
            Err(e) => {
                return Err(PhotoError::Metadata(e));
            },
        };
        let thumbnail_path = match Self::derivative_path::<true>(path.as_str(), options) {
            Some(derived) => derived,
            None => {
                return Err(PhotoError::NoFileName);
            },
        };
        let display_path = match Self::derivative_path::<false>(path.as_str(), options) {
            Some(derived) => derived,
            None => {
                return Err(PhotoError::NoFileName);
            },
        };
        Ok(Photo { original_path: path, captured_at, thumbnail_path, display_path })
    }

    /// Where the derivative of `input` goes: the thumbnail where
    /// `THUMBNAIL` holds, the display-size derivative where not.
    pub fn derivative_path<const THUMBNAIL: bool>(input: &str, options: &Options) -> (r: Option<
        String,
    >)
        ensures
            r is Some == derivative_path_of(input@, derivative_dir(*options, THUMBNAIL)) is Some,
            r matches Some(derived) ==> derived@ == derivative_path_of(
                input@,
                derivative_dir(*options, THUMBNAIL),
            )->0,
    {
        let name = match file_name(input) {
            Some(name) => name,
            None => {
                return None;
            },
        };
        let dir = if THUMBNAIL {
            options.thumbnail_dir.as_str()
        } else {
            options.img_dir.as_str()
        };
        let placed = join(dir, name.as_str());
        proof {
            reveal_strlit("jpg");
        }
        Some(with_extension(placed.as_str(), DERIVATIVE_EXTENSION))
    }
}

} // verus!
