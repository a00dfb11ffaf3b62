//! Reading the capture time of a photo: the two embedded fields, their
//! text, and the local timestamp that they give together.
//!
//! The container is parsed by the `exif` crate and the texts by `chrono`.
//! Each of those calls is made through a function whose contract names what
//! the call gives and is taken on trust; the rest is verified.

use vstd::prelude::*;
use vstd::utf8::{decode_utf8, valid_utf8};
use chrono::{Datelike, TimeZone, Timelike};
use crate::time::{Date, Timestamp};

verus! {

/// Number of the field that holds the original capture date and time.
pub const CAPTURE_TIME_TAG: u16 = 0x9003;

/// Number of the field that holds the UTC offset of the capture time.
pub const CAPTURE_OFFSET_TAG: u16 = 0x9011;

/// The form in which the capture date and time is written.
pub const CAPTURE_TIME_FORMAT: &'static str = "%Y:%m:%d %H:%M:%S";

/// What a container holds for one field of its primary image.
#[derive(Clone, Debug, PartialEq, Eq)]
pub enum FieldContent {
    /// The container has no attributes that can be read.
    Unreadable,
    /// The attributes do not have the field.
    Missing,
    /// The field is there, with a value that is not text.
    NotText,
    /// The field is there, with its text in pieces of bytes.
    Text(Vec<Vec<u8>>),
}

/// The mathematical value of a `FieldContent`.
pub enum FieldContentView {
    Unreadable,
    Missing,
    NotText,
    Text(Seq<Seq<u8>>),
}

impl View for FieldContent {
    type V = FieldContentView;

    open spec fn view(&self) -> FieldContentView {
        match self {
            FieldContent::Unreadable => FieldContentView::Unreadable,
            FieldContent::Missing => FieldContentView::Missing,
            FieldContent::NotText => FieldContentView::NotText,
            FieldContent::Text(parts) => FieldContentView::Text(parts.deep_view()),
        }
    }
}

/// Why no capture time could be had from a photo.
#[derive(Clone, Copy, Debug, PartialEq, Eq, Structural)]
pub enum MetadataError {
    /// The file has no attributes that can be read.
    Unreadable,
    /// The capture date and time is missing.
    MissingCaptureTime,
    /// The UTC offset of the capture time is missing.
    MissingOffset,
    /// The capture date and time is not text.
    CaptureTimeNotText,
    /// The capture date and time is not written in the expected form.
    MalformedCaptureTime,
    /// The UTC offset is not text.
    OffsetNotText,
    /// The UTC offset is not a signed `HH:MM`.
    MalformedOffset,
    /// The capture time cannot be represented at its offset.
    OutOfRange,
}

/// The field with the number `tag` that the `exif` crate finds among the
/// Exif attributes of the primary image in `container`.
pub uninterp spec fn exif_primary_field(container: Seq<u8>, tag: u16) -> FieldContentView;

/// The date and time that `chrono` reads from `text` under `format`.
pub uninterp spec fn chrono_datetime(text: Seq<char>, format: Seq<char>) -> Option<Timestamp>;

/// The UTC offset, in seconds east, that `chrono` reads from `text`.
pub uninterp spec fn chrono_offset(text: Seq<char>) -> Option<i32>;

/// Whether `chrono` can hold the instant that is `local` on the wall clock
/// at `offset_seconds` east of UTC.
pub uninterp spec fn chrono_places(local: Timestamp, offset_seconds: i32) -> bool;

/// Parses `container` with `exif::Reader::read_from_container` and looks
/// the field up with `exif::Exif::get_field`, among the Exif attributes of
/// the primary image. Trusted: the result is the named function of the bytes
/// and the tag number. The variants tell apart a parse error, an absent
/// field, a value of another type than ASCII, and an ASCII value, whose
/// pieces are handed on as they are.
#[verifier::external_body]
fn read_primary_field(container: &[u8], tag: u16) -> (r: FieldContent)
    ensures
        r@ == exif_primary_field(container@, tag),
{
    let mut reader = std::io::Cursor::new(container);
    match exif::Reader::new().read_from_container(&mut reader) {
        Err(_) => FieldContent::Unreadable,
        Ok(found) => match found.get_field(exif::Tag(exif::Context::Exif, tag), exif::In::PRIMARY) {
            None => FieldContent::Missing,
            Some(field) => match &field.value {
                exif::Value::Ascii(parts) => FieldContent::Text(parts.clone()),
                _ => FieldContent::NotText,
            },
        },
    }
}

/// Calls `String::from_utf8`. Trusted: the bytes become a string exactly
/// when they are valid UTF-8, and the string is then their decoding.
#[verifier::external_body]
fn text_from_utf8(bytes: Vec<u8>) -> (r: Option<String>)
    ensures
        r is Some == valid_utf8(bytes@),
        r matches Some(text) ==> text@ == decode_utf8(bytes@),
{
    match String::from_utf8(bytes) {
        Ok(text) => Some(text),
        Err(_) => None,
    }
}

/// Calls `chrono::NaiveDateTime::parse_from_str`. Trusted: the result is
/// the named function of the two texts. The date and time come back as the
/// numbers that `chrono` reports for them.
#[verifier::external_body]
fn parse_naive_datetime(text: &str, format: &str) -> (r: Option<Timestamp>)
    ensures
        r == chrono_datetime(text@, format@),
{
    match chrono::NaiveDateTime::parse_from_str(text, format) {
        Ok(parsed) => Some(
            Timestamp {
                date: Date { year: parsed.year(), month: parsed.month(), day: parsed.day() },
                second_of_day: parsed.num_seconds_from_midnight(),
                nanosecond: parsed.nanosecond(),
            },
        ),
        Err(_) => None,
    }
}

/// Calls the `FromStr` of `chrono::FixedOffset`. Trusted: the result is the
/// named function of the text, as seconds east of UTC.
#[verifier::external_body]
fn parse_fixed_offset(text: &str) -> (r: Option<i32>)
    ensures
        r == chrono_offset(text@),
{
    match text.parse::<chrono::FixedOffset>() {
        Ok(offset) => Some(offset.local_minus_utc()),
        Err(_) => None,
    }
}

/// Calls `from_local_datetime` of `chrono::FixedOffset` on the date and
/// time that the numbers of `local` stand for, and `naive_local` on what it
/// gives. Trusted: whether there is a result is the named function of the
/// arguments, and the result is `local` itself: the wall clock of an instant
/// at the offset from which it was made.
#[verifier::external_body]
fn local_at_offset(local: Timestamp, offset_seconds: i32) -> (r: Option<Timestamp>)
    ensures
        r == if chrono_places(local, offset_seconds) {
            Some(local)
        } else {
            None::<Timestamp>
        },
{
    let date = chrono::NaiveDate::from_ymd_opt(local.date.year, local.date.month, local.date.day)?;
    let time = chrono::NaiveTime::from_num_seconds_from_midnight_opt(
        local.second_of_day,
        local.nanosecond,
    )?;
    let offset = chrono::FixedOffset::east_opt(offset_seconds)?;
    let placed = offset.from_local_datetime(&date.and_time(time)).single()?.naive_local();
    Some(
        Timestamp {
            date: Date { year: placed.year(), month: placed.month(), day: placed.day() },
            second_of_day: placed.num_seconds_from_midnight(),
            nanosecond: placed.nanosecond(),
        },
    )
}

/// The pieces of a field's text, one after the other.
pub fn join_parts(parts: &Vec<Vec<u8>>) -> (r: Vec<u8>)
    ensures
        r@ == parts.deep_view().flatten(),
{
    let ghost pieces = parts.deep_view();
    let mut r: Vec<u8> = Vec::new();
    let mut i: usize = 0;
    proof {
        assert(pieces.take(0) =~= Seq::<Seq<u8>>::empty());
    }
    while i < parts.len()
        invariant
            i <= parts@.len(),
            pieces == parts.deep_view(),
            r@ == pieces.take(i as int).flatten(),
        decreases parts@.len() - i,
    {
        let part = &parts[i];
        let ghost before = r@;
        let mut j: usize = 0;
        while j < part.len()
            invariant
                j <= part@.len(),
                r@ == before + part@.take(j as int),
            decreases part@.len() - j,
        {
            r.push(part[j]);
            proof {
                assert(part@.take(j + 1) =~= part@.take(j as int).push(part@[j as int]));
                assert(r@ =~= before + part@.take(j + 1));
            }
            j = j + 1;
        }
        proof {
            assert(part@.take(part@.len() as int) =~= part@);
            assert(pieces[i as int] =~= part@);
            assert(pieces.take(i + 1) =~= pieces.take(i as int).push(pieces[i as int]));
            pieces.take(i as int).lemma_flatten_push(pieces[i as int]);
        }
        i = i + 1;
    }
    proof {
        assert(pieces.take(pieces.len() as int) =~= pieces);
    }
    r
}

/// The text of a field: its pieces joined and read as UTF-8. `None` for a
/// field that is not text.
pub open spec fn field_text_of(field: FieldContentView) -> Option<Seq<char>> {
    match field {
        FieldContentView::Text(parts) => if valid_utf8(parts.flatten()) {
            Some(decode_utf8(parts.flatten()))
        } else {
            None
        },
        _ => None,
    }
}

/// The text of a field: its pieces joined and read as UTF-8.
pub fn field_text(field: &FieldContent) -> (r: Option<String>)
    ensures
        r is Some == field_text_of(field@) is Some,
        r matches Some(text) ==> text@ == field_text_of(field@)->0,
{
    match field {
        FieldContent::Text(parts) => text_from_utf8(join_parts(parts)),
        _ => None,
    }
}

/// The capture time that the two fields give: the date and time of the
/// first, read in the fixed form, as the local wall-clock time at the offset
/// that the second names. The offset confirms the time and does not move it.
/// Where several things are wrong, the error is that of the first in this
/// order: the container, the presence of the time, the presence of the
/// offset, the time's text, the time's form, the offset's text, the offset's
/// form, the range.
pub open spec fn capture_time_of(time_field: FieldContentView, offset_field: FieldContentView) -> Result<
    Timestamp,
    MetadataError,
> {
    if time_field is Unreadable || offset_field is Unreadable {
        Err(MetadataError::Unreadable)
    } else if time_field is Missing {
        Err(MetadataError::MissingCaptureTime)
    } else if offset_field is Missing {
        Err(MetadataError::MissingOffset)
    } else if field_text_of(time_field) is None {
        Err(MetadataError::CaptureTimeNotText)
    } else if chrono_datetime(field_text_of(time_field)->0, CAPTURE_TIME_FORMAT@) is None {
        Err(MetadataError::MalformedCaptureTime)
    } else if field_text_of(offset_field) is None {
        Err(MetadataError::OffsetNotText)
    } else if chrono_offset(field_text_of(offset_field)->0) is None {
        Err(MetadataError::MalformedOffset)
    } else {
        let local = chrono_datetime(field_text_of(time_field)->0, CAPTURE_TIME_FORMAT@)->0;
        let offset = chrono_offset(field_text_of(offset_field)->0)->0;
        if chrono_places(local, offset) {
            Ok(local)
        } else {
            Err(MetadataError::OutOfRange)
        }
    }
}

/// The capture time that the two fields of a photo give.
pub fn capture_time_from_fields(time_field: &FieldContent, offset_field: &FieldContent) -> (r:
    Result<Timestamp, MetadataError>)
    ensures
        r == capture_time_of(time_field@, offset_field@),
{
    match time_field {
        FieldContent::Unreadable => {
            return Err(MetadataError::Unreadable);
        },
        FieldContent::Missing => match offset_field {
            FieldContent::Unreadable => {
                return Err(MetadataError::Unreadable);
            },
            _ => {
                return Err(MetadataError::MissingCaptureTime);
            },
        },
        _ => {},
    }
    match offset_field {
        FieldContent::Unreadable => {
            return Err(MetadataError::Unreadable);
        },
        FieldContent::Missing => {
            return Err(MetadataError::MissingOffset);
        },
        _ => {},
    }
    let time_text = match field_text(time_field) {
        Some(text) => text,
        None => {
            return Err(MetadataError::CaptureTimeNotText);
        },
    };
    let local = match parse_naive_datetime(time_text.as_str(), CAPTURE_TIME_FORMAT) {
        Some(local) => local,
        None => {
            return Err(MetadataError::MalformedCaptureTime);
        },
    };
    let offset_text = match field_text(offset_field) {
        Some(text) => text,
        None => {
            return Err(MetadataError::OffsetNotText);
        },
    };
    let offset = match parse_fixed_offset(offset_text.as_str()) {
        Some(offset) => offset,
        None => {
            return Err(MetadataError::MalformedOffset);
        },
    };
    match local_at_offset(local, offset) {
        Some(placed) => Ok(placed),
        None => Err(MetadataError::OutOfRange),
    }
}

/// The capture time of the photo whose file holds the bytes `container`.
pub fn capture_time(container: &[u8]) -> (r: Result<Timestamp, MetadataError>)
    ensures
        r == capture_time_of(
            exif_primary_field(container@, CAPTURE_TIME_TAG),
            exif_primary_field(container@, CAPTURE_OFFSET_TAG),
        ),
{
    let time_field = read_primary_field(container, CAPTURE_TIME_TAG);
    let offset_field = read_primary_field(container, CAPTURE_OFFSET_TAG);
    capture_time_from_fields(&time_field, &offset_field)
}

} // verus!
