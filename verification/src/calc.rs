//! Geometry engine: "cover" resize sizes and crop rectangles.
//!
//! All computations are exact integer arithmetic.  Aspect ratios are never
//! materialised as quotients; the comparison `sw / sh < tw / th` is carried
//! out by cross-multiplication, and derived dimensions truncate toward zero,
//! which for the non-negative values involved is plain integer division.

use vstd::arithmetic::div_mod::{lemma_div_is_ordered, lemma_div_multiples_vanish};
use vstd::prelude::*;

use crate::url_props::{Alignment, HAlign, VAlign};

verus! {

/// Pixel dimensions of an image or of a requested target.
#[derive(Clone, Copy, Debug, PartialEq, Eq, Structural)]
pub struct Size {
    pub width: i32,
    pub height: i32,
}

/// An axis-aligned rectangle inside a resized image, in pixels.
#[derive(Clone, Copy, Debug, PartialEq, Eq, Structural)]
pub struct Rect {
    pub x: i32,
    pub y: i32,
    pub width: i32,
    pub height: i32,
}

impl Size {
    /// Both dimensions are at least one pixel.
    pub open spec fn positive(self) -> bool {
        self.width >= 1 && self.height >= 1
    }
}

/// Exact test for `sw / sh < tw / th` with positive heights,
/// written without any division.
pub open spec fn ratio_lt(sw: int, sh: int, tw: int, th: int) -> bool {
    sw * th < tw * sh
}

/// Width of the cover resize of a `sw x sh` source toward a `tw x th` target:
/// the target width where the source is relatively taller than the target,
/// otherwise the width derived from the target height at the source ratio.
pub open spec fn cover_width(sw: int, sh: int, tw: int, th: int) -> int {
    if ratio_lt(sw, sh, tw, th) {
        tw
    } else {
        sw * th / sh
    }
}

/// Height of the cover resize of a `sw x sh` source toward a `tw x th` target.
pub open spec fn cover_height(sw: int, sh: int, tw: int, th: int) -> int {
    if ratio_lt(sw, sh, tw, th) {
        sh * tw / sw
    } else {
        th
    }
}

/// The dimension derived from `given` at the source aspect ratio, used when a
/// request leaves one target dimension as zero.
pub open spec fn derived_dimension(given: int, source_missing: int, source_given: int) -> int {
    source_missing * given / source_given
}

/// `a / d >= b` follows from `a >= d * b` for a positive divisor.
proof fn lemma_div_at_least(a: int, b: int, d: int)
    requires
        d >= 1,
        b >= 0,
        a >= d * b,
    ensures
        a / d >= b,
{
    lemma_div_multiples_vanish(b, d);
    lemma_div_is_ordered(d * b, a, d);
}

/// The cover size covers the target and keeps one target dimension exactly:
/// the width where the source is relatively taller than the target, the
/// height otherwise.  When the ratios agree exactly — and on some nearby
/// pairs, through truncation — both dimensions equal the target's.
pub proof fn lemma_cover_size_covers(sw: int, sh: int, tw: int, th: int)
    requires
        sw >= 1,
        sh >= 1,
        tw >= 1,
        th >= 1,
    ensures
        cover_width(sw, sh, tw, th) >= tw,
        cover_height(sw, sh, tw, th) >= th,
        cover_width(sw, sh, tw, th) == tw || cover_height(sw, sh, tw, th) == th,
        ratio_lt(sw, sh, tw, th) ==> cover_width(sw, sh, tw, th) == tw,
        !ratio_lt(sw, sh, tw, th) ==> cover_height(sw, sh, tw, th) == th,
        sw * th == tw * sh ==> cover_width(sw, sh, tw, th) == tw && cover_height(sw, sh, tw, th)
            == th,
{
    if sw * th == tw * sh {
        assert(sw * th / sh == tw) by {
            lemma_div_multiples_vanish(tw, sh);
            assert(sw * th == sh * tw) by (nonlinear_arith)
                requires
                    sw * th == tw * sh,
            ;
        }
    }
    if ratio_lt(sw, sh, tw, th) {
        assert(sw * th + 1 <= tw * sh);
        assert(sh * tw == tw * sh) by (nonlinear_arith);
        lemma_div_at_least(sh * tw, th, sw);
    } else {
        assert(tw * sh <= sw * th);
        assert(sw * th >= sh * tw) by (nonlinear_arith)
            requires
                tw * sh <= sw * th,
        ;
        lemma_div_at_least(sw * th, tw, sh);
    }
}

/// Resize-to-cover: the smallest size at the source's aspect ratio, derived
/// dimension truncated toward zero, that still covers the requested size.
///
/// The bounds in the `requires` clause only keep the derived dimension
/// representable as an `i32`.
pub fn get_new_size_respecting_aspect_ratio(original_size: Size, new_size: Size) -> (r: Size)
    requires
        original_size.positive(),
        new_size.positive(),
        cover_width(
            original_size.width as int,
            original_size.height as int,
            new_size.width as int,
            new_size.height as int,
        ) <= i32::MAX,
        cover_height(
            original_size.width as int,
            original_size.height as int,
            new_size.width as int,
            new_size.height as int,
        ) <= i32::MAX,
    ensures
        r.width == cover_width(
            original_size.width as int,
            original_size.height as int,
            new_size.width as int,
            new_size.height as int,
        ),
        r.height == cover_height(
            original_size.width as int,
            original_size.height as int,
            new_size.width as int,
            new_size.height as int,
        ),
        r.width >= new_size.width,
        r.height >= new_size.height,
        r.positive(),
{
    let sw = original_size.width as u64;
    let sh = original_size.height as u64;
    let tw = new_size.width as u64;
    let th = new_size.height as u64;
    proof {
        assert(sw * th <= 0x7fff_ffff * 0x7fff_ffff) by (nonlinear_arith)
            requires
                sw <= 0x7fff_ffff,
                th <= 0x7fff_ffff,
        ;
        assert(tw * sh <= 0x7fff_ffff * 0x7fff_ffff) by (nonlinear_arith)
            requires
                tw <= 0x7fff_ffff,
                sh <= 0x7fff_ffff,
        ;
        assert(sh * tw <= 0x7fff_ffff * 0x7fff_ffff) by (nonlinear_arith)
            requires
                sh <= 0x7fff_ffff,
                tw <= 0x7fff_ffff,
        ;
        lemma_cover_size_covers(sw as int, sh as int, tw as int, th as int);
    }
    if sw * th < tw * sh {
        // Source is relatively taller than the target: hold the target width
        // and derive the height at the source's ratio.
        let derived = (sh * tw) / sw;
        Size { width: new_size.width, height: derived as i32 }
    } else {
        // Source is relatively wider, or the ratios are equal: hold the
        // target height and derive the width at the source's ratio.
        let derived = (sw * th) / sh;
        Size { width: derived as i32, height: new_size.height }
    }
}

/// The dimension a zero target dimension is derived from, at the source's
/// aspect ratio, truncated toward zero.  For deriving a width,
/// `source_missing` is the source width and `source_given` the source height;
/// for a height the roles swap.
pub fn aspect_derivation(given: i32, source_missing: i32, source_given: i32) -> (r: i32)
    requires
        given >= 1,
        source_missing >= 1,
        source_given >= 1,
        derived_dimension(given as int, source_missing as int, source_given as int) <= i32::MAX,
    ensures
        r == derived_dimension(given as int, source_missing as int, source_given as int),
        r >= 0,
{
    let g = given as u64;
    let sm = source_missing as u64;
    let sg = source_given as u64;
    proof {
        assert(sm * g <= 0x7fff_ffff * 0x7fff_ffff) by (nonlinear_arith)
            requires
                sm <= 0x7fff_ffff,
                g <= 0x7fff_ffff,
        ;
    }
    ((sm * g) / sg) as i32
}

/// Horizontal offset of the crop window inside a resized width.
pub open spec fn crop_offset_h(a: HAlign, total: int, target: int) -> int {
    match a {
        HAlign::Left => 0,
        HAlign::Center => (total - target) / 2,
        HAlign::Right => total - target,
    }
}

/// Vertical offset of the crop window inside a resized height.
pub open spec fn crop_offset_v(a: VAlign, total: int, target: int) -> int {
    match a {
        VAlign::Top => 0,
        VAlign::Middle => (total - target) / 2,
        VAlign::Bottom => total - target,
    }
}

/// For every anchor, the crop window stays inside the resized extent:
/// the offset is non-negative and offset plus target never exceeds the
/// total.
pub proof fn lemma_crop_offsets_contained(h: HAlign, v: VAlign, total_w: int, total_h: int, target_w: int, target_h: int)
    requires
        1 <= target_w <= total_w,
        1 <= target_h <= total_h,
    ensures
        0 <= crop_offset_h(h, total_w, target_w),
        crop_offset_h(h, total_w, target_w) + target_w <= total_w,
        0 <= crop_offset_v(v, total_h, target_h),
        crop_offset_v(v, total_h, target_h) + target_h <= total_h,
{
}

/// The window that survives cropping: the target size anchored inside the
/// resized image, centered offsets truncated toward zero.
pub fn crop_rect(resized: Size, target: Size, alignment: &Alignment) -> (r: Rect)
    requires
        target.positive(),
        resized.width >= target.width,
        resized.height >= target.height,
    ensures
        r.x == crop_offset_h(alignment.halign, resized.width as int, target.width as int),
        r.y == crop_offset_v(alignment.valign, resized.height as int, target.height as int),
        r.width == target.width,
        r.height == target.height,
        0 <= r.x,
        0 <= r.y,
        r.x + r.width <= resized.width,
        r.y + r.height <= resized.height,
{
    let x = match alignment.halign {
        HAlign::Left => 0,
        HAlign::Center => (((resized.width - target.width) as u32) / 2) as i32,
        HAlign::Right => resized.width - target.width,
    };
    let y = match alignment.valign {
        VAlign::Top => 0,
        VAlign::Middle => (((resized.height - target.height) as u32) / 2) as i32,
        VAlign::Bottom => resized.height - target.height,
    };
    Rect { x, y, width: target.width, height: target.height }
}

} // verus!
