//! What is made of a photo: its download, an exact copy, and its preview, an
//! image of limited size.

use crate::digest::{hex_digest, hex_sha256};
use crate::journal::file_view;
use crate::steps::{digest_of, has_digest};
use crate::text::{ascii_lowercase, option_text, same_text, to_ascii_lowercase};
use vstd::prelude::*;

verus! {

/// The longest edge of a preview.
pub const MAX_PREVIEW_EDGE: u32 = 2048;

/// Whether the download of a photo has to be written: none is there, or one
/// with another content.
pub fn copy_needed(source: &Vec<u8>, existing: &Option<Vec<u8>>) -> (r: bool)
    ensures
        r == (digest_of(file_view(*existing)) != Some(hex_sha256(source@))),
{
    let digest: String = hex_digest(source.as_slice());
    !has_digest(existing, digest.as_str())
}

/// What is done about the preview of a photo.
#[derive(Debug, Clone, Copy, PartialEq, Eq, Structural)]
pub enum PreviewPlan {
    /// The one there is kept.
    Keep { width: u32, height: u32 },
    /// One is made.
    Make,
}

/// Whether a file name extension is that of a JPEG file, in any case.
pub open spec fn is_jpg_extension(extension: Option<Seq<char>>) -> bool {
    extension is Some && ascii_lowercase(extension->0) == "jpg"@
}

/// What is done about a preview: one that is there, is a readable image and has
/// the name of a JPEG file is kept.
pub open spec fn preview_due(
    exists: bool,
    dimensions: Option<(u32, u32)>,
    extension: Option<Seq<char>>,
) -> PreviewPlan {
    match dimensions {
        Some((width, height)) if exists && is_jpg_extension(extension) => PreviewPlan::Keep {
            width,
            height,
        },
        _ => PreviewPlan::Make,
    }
}

/// Decides what is done about a preview, given whether a file is there, the
/// dimensions of the image in it and the extension of its name.
pub fn preview_plan(
    exists: bool,
    dimensions: Option<(u32, u32)>,
    extension: &Option<String>,
) -> (r: PreviewPlan)
    ensures
        r == preview_due(exists, dimensions, option_text(*extension)),
{
    match (dimensions, extension) {
        (Some((width, height)), Some(text)) => {
            let lower: String = to_ascii_lowercase(text.as_str());
            if exists && same_text(lower.as_str(), "jpg") {
                return PreviewPlan::Keep { width, height };
            }
            PreviewPlan::Make
        },
        _ => PreviewPlan::Make,
    }
}

/// The size of the preview of an image that needs no scaling: its own, and at
/// least one in each direction. None for an image with an edge that is too long.
pub fn unscaled_preview(width: u32, height: u32) -> (r: Option<(u32, u32)>)
    ensures
        width <= MAX_PREVIEW_EDGE && height <= MAX_PREVIEW_EDGE ==> r == Some(
            (
                if width == 0 {
                    1u32
                } else {
                    width
                },
                if height == 0 {
                    1u32
                } else {
                    height
                },
            ),
        ),
        width > MAX_PREVIEW_EDGE || height > MAX_PREVIEW_EDGE ==> r is None,
        r is Some <==> width <= 2048 && height <= 2048,
{
    if width > MAX_PREVIEW_EDGE || height > MAX_PREVIEW_EDGE {
        return None;
    }
    let w: u32 = if width == 0 {
        1
    } else {
        width
    };
    let h: u32 = if height == 0 {
        1
    } else {
        height
    };
    Some((w, h))
}

} // verus!
