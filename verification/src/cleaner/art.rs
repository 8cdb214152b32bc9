//! Making covers fit.
use std::future::{poll_fn, Future};
use std::pin::Pin;
use std::sync::mpsc::channel;
use std::task::{Context, Poll, Waker};

use tokio::task::LocalSet;
use vstd::prelude::*;

use crate::cover_art::AlbumArt;

verus! {

/// The width and height of an image; `None` where the bytes are no image that can
/// be read.
pub uninterp spec fn dimensions(data: Seq<u8>) -> Option<(u32, u32)>;

/// `image::load_from_memory` and the width and height of what it gives. The call is a
/// task of a `tokio::task::LocalSet` that is polled once, so that a panic ends the
/// task alone; then nothing comes over the channel. Whether an image comes, and which,
/// is a function of the bytes.
#[verifier::external_body]
fn image_dimensions(data: &Vec<u8>) -> (r: Option<(u32, u32)>)
    ensures
        r == dimensions(data@),
{
    let bytes = data.clone();
    let (answer, came) = channel();
    let mut tasks = LocalSet::new();
    tasks.spawn_local(poll_fn(move |_| {
        Poll::Ready(answer.send(image::load_from_memory(bytes.as_slice()).ok()))
    }));
    let _ = Pin::new(&mut tasks).poll(&mut Context::from_waker(Waker::noop()));
    let img = came.try_recv().ok()??;
    Some((img.width(), img.height()))
}

/// An image of size `s` that is scaled down to size `t` fills one of its bounds, the
/// one that allows less, and keeps its proportions as near as whole pixels allow:
/// the other side is at most one pixel from the exact length.
pub open spec fn scaled_to(s: (u32, u32), max_w: u32, max_h: u32, t: (u32, u32)) -> bool {
    &&& t.0 <= max_w
    &&& t.1 <= max_h
    &&& if max_w * s.1 <= max_h * s.0 {
        t.0 == max_w && crate::text_match::gap(t.1 * s.0, s.1 * max_w) <= s.0
    } else {
        t.1 == max_h && crate::text_match::gap(t.0 * s.1, s.0 * max_h) <= s.1
    }
}

/// The greatest width and height of a JPEG.
pub const JPEG_MAX: u32 = 65_535;

/// Scaling an image of size `s` down to the bounds may give one that is longer than
/// JPEG allows.
pub open spec fn exceeds_jpeg(s: (u32, u32), max_w: u32, max_h: u32) -> bool {
    exists|t: (u32, u32)| #[trigger]
        scaled_to(s, max_w, max_h, t) && (t.0 > JPEG_MAX || t.1 > JPEG_MAX)
}

/// `image::DynamicImage::resize`, with the Lanczos filter, of the image that
/// `image::load_from_memory` gives, written as JPEG; `None` where that fails. The
/// image that is written is the largest of the same proportions that fits within
/// the bounds, where neither is 0. Writing fails only where a side of that image is
/// longer than JPEG allows. Nothing is claimed of the pixels, which come of floating-point
/// arithmetic.
#[verifier::external_body]
fn resize_to_jpeg(data: &Vec<u8>, max_w: u32, max_h: u32) -> (r: Option<Vec<u8>>)
    requires
        dimensions(data@) matches Some(s) && (s.0 > max_w || s.1 > max_h),
    ensures
        match r {
            Some(buf) => max_w > 0 && max_h > 0 ==> (dimensions(buf@) matches Some(t) && scaled_to(
                dimensions(data@)->0,
                max_w,
                max_h,
                t,
            ) && t.0 <= JPEG_MAX && t.1 <= JPEG_MAX),
            None => max_w > 0 && max_h > 0 && exceeds_jpeg(dimensions(data@)->0, max_w, max_h),
        },
{
    let img = image::load_from_memory(data.as_slice()).ok()?;
    let resized = img.resize(max_w, max_h, image::imageops::FilterType::Lanczos3);
    let mut buf: Vec<u8> = Vec::new();
    resized.write_to(&mut std::io::Cursor::new(&mut buf), image::ImageFormat::Jpeg).ok()?;
    Some(buf)
}

/// Why a cover could not be made to fit.
#[derive(Debug, Clone, Copy, PartialEq, Eq, Structural)]
pub enum ArtError {
    /// The cover is no image that can be read.
    Unreadable,
    /// The image could not be written.
    Unwritable,
}

/// The bounds of a cover. One that is not given does not bound.
pub open spec fn bound(max: Option<u32>) -> u32 {
    match max {
        Some(m) => m,
        None => u32::MAX,
    }
}

/// An image is within its bounds.
pub open spec fn fits(size: (u32, u32), max_w: Option<u32>, max_h: Option<u32>) -> bool {
    size.0 <= bound(max_w) && size.1 <= bound(max_h)
}

/// The cover that is embedded, after its size and what came of scaling it down:
/// one that is within its bounds stays as it is, another is the scaled one, as
/// JPEG.
pub fn fitted_art(
    art: AlbumArt,
    size: Option<(u32, u32)>,
    scaled: Option<Vec<u8>>,
    max_w: Option<u32>,
    max_h: Option<u32>,
) -> (r: Result<AlbumArt, ArtError>)
    ensures
        match size {
            None => r == Err::<AlbumArt, ArtError>(ArtError::Unreadable),
            Some(s) => if fits(s, max_w, max_h) {
                r == Ok::<AlbumArt, ArtError>(art)
            } else {
                match scaled {
                    Some(data) => {
                        &&& r matches Ok(a)
                        &&& a.data == data
                        &&& a.extension@ == "jpg"@
                    },
                    None => r == Err::<AlbumArt, ArtError>(ArtError::Unwritable),
                }
            },
        },
{
    match size {
        None => Err(ArtError::Unreadable),
        Some((w, h)) => {
            let bound_w: u32 = match max_w {
                Some(m) => m,
                None => u32::MAX,
            };
            let bound_h: u32 = match max_h {
                Some(m) => m,
                None => u32::MAX,
            };
            if w <= bound_w && h <= bound_h {
                Ok(art)
            } else {
                match scaled {
                    Some(data) => Ok(AlbumArt { data, extension: "jpg".to_owned() }),
                    None => Err(ArtError::Unwritable),
                }
            }
        },
    }
}

/// What making a cover fit comes to: one that is within its bounds stays as it is,
/// another is scaled down, in its proportions, and becomes a JPEG.
pub open spec fn is_fitted(
    art: AlbumArt,
    max_w: Option<u32>,
    max_h: Option<u32>,
    r: Result<AlbumArt, ArtError>,
) -> bool {
    match dimensions(art.data@) {
        None => r == Err::<AlbumArt, ArtError>(ArtError::Unreadable),
        Some(s) => if fits(s, max_w, max_h) {
            r == Ok::<AlbumArt, ArtError>(art)
        } else {
            match r {
                Ok(a) => {
                    &&& a.extension@ == "jpg"@
                    &&& bound(max_w) > 0 && bound(max_h) > 0 ==> {
                        &&& dimensions(a.data@) matches Some(t)
                        &&& scaled_to(s, bound(max_w), bound(max_h), t)
                        &&& t.0 <= JPEG_MAX && t.1 <= JPEG_MAX
                    }
                },
                Err(e) => {
                    &&& e == ArtError::Unwritable
                    &&& bound(max_w) > 0 && bound(max_h) > 0
                    &&& exceeds_jpeg(s, bound(max_w), bound(max_h))
                },
            }
        },
    }
}

/// Make a cover fit.
pub fn maybe_resize_art(art: AlbumArt, max_w: Option<u32>, max_h: Option<u32>) -> (r: Result<
    AlbumArt,
    ArtError,
>)
    ensures
        is_fitted(art, max_w, max_h, r),
{
    let size = image_dimensions(&art.data);
    let bound_w: u32 = match max_w {
        Some(m) => m,
        None => u32::MAX,
    };
    let bound_h: u32 = match max_h {
        Some(m) => m,
        None => u32::MAX,
    };
    let scaled = match size {
        Some((w, h)) => if w <= bound_w && h <= bound_h {
            None
        } else {
            resize_to_jpeg(&art.data, bound_w, bound_h)
        },
        None => None,
    };
    fitted_art(art, size, scaled, max_w, max_h)
}

/// A cover that was made to fit is within its bounds.
pub proof fn lemma_fitted_within_bounds(
    art: AlbumArt,
    max_w: Option<u32>,
    max_h: Option<u32>,
    r: AlbumArt,
)
    requires
        is_fitted(art, max_w, max_h, Ok(r)),
        bound(max_w) > 0,
        bound(max_h) > 0,
    ensures
        dimensions(r.data@) matches Some(t) && fits(t, max_w, max_h),
{
}

/// A cover that is too wide for the only bound that is given becomes exactly as wide
/// as that, and as high as keeps its proportions, to within one pixel, where that is
/// not higher than JPEG allows.
pub proof fn lemma_width_alone_keeps_proportions(
    art: AlbumArt,
    max_w: u32,
    r: Result<AlbumArt, ArtError>,
)
    requires
        is_fitted(art, Some(max_w), None, r),
        dimensions(art.data@) matches Some(s) && s.0 > max_w && s.1 * max_w < JPEG_MAX * s.0,
        0 < max_w <= JPEG_MAX,
    ensures
        ({
            let s = dimensions(art.data@)->0;
            &&& r matches Ok(a)
            &&& dimensions(a.data@) matches Some(t)
            &&& t.0 == max_w
            &&& crate::text_match::gap(t.1 * s.0, s.1 * t.0) <= s.0
        }),
{
    let s = dimensions(art.data@)->0;
    assert(max_w * s.1 <= u32::MAX * s.0) by (nonlinear_arith)
        requires
            max_w < s.0,
            s.1 <= u32::MAX,
    ;
    assert forall|t: (u32, u32)| #[trigger] scaled_to(s, max_w, u32::MAX, t) implies t.1
        <= JPEG_MAX by {
        let (t1, s0, s1) = (t.1 as int, s.0 as int, s.1 as int);
        assert(t1 * s0 <= s1 * max_w + s0);
        assert(t1 <= JPEG_MAX) by (nonlinear_arith)
            requires
                t1 * s0 <= s1 * max_w + s0,
                s1 * max_w < JPEG_MAX * s0,
                s0 > 0,
        ;
    }
}

} // verus!
