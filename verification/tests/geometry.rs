use thumbor_rust::calc::{
    aspect_derivation, crop_rect, get_new_size_respecting_aspect_ratio, Rect, Size,
};
use thumbor_rust::url_props::{Alignment, HAlign, VAlign};

#[test]
fn test_get_new_size_respecting_aspect_ratio_in_portrait() {
    let original_size = Size { width: 3456, height: 5184 };
    let new_size = Size { width: 670, height: 390 };
    let new_size_with_aspect = get_new_size_respecting_aspect_ratio(original_size, new_size);
    assert_eq!(new_size_with_aspect.width, 670);
    assert_eq!(new_size_with_aspect.height, 1005);
}

#[test]
fn test_get_new_size_respecting_aspect_ratio_in_landscape() {
    let original_size = Size { width: 5184, height: 3456 };
    let new_size = Size { width: 390, height: 670 };
    let new_size_with_aspect = get_new_size_respecting_aspect_ratio(original_size, new_size);
    assert_eq!(new_size_with_aspect.width, 1005);
    assert_eq!(new_size_with_aspect.height, 670);
}

#[test]
fn cover_size_covers_target_and_keeps_one_dimension() {
    let cases = [
        (3456, 5184, 670, 390),
        (5184, 3456, 390, 670),
        (100, 100, 50, 50),
        (1, 1000, 30, 40),
        (1000, 1, 40, 30),
        (1920, 1080, 1080, 1920),
        (7, 13, 13, 7),
    ];
    for (sw, sh, tw, th) in cases {
        let r = get_new_size_respecting_aspect_ratio(
            Size { width: sw, height: sh },
            Size { width: tw, height: th },
        );
        assert!(r.width >= tw);
        assert!(r.height >= th);
        assert!(r.width == tw || r.height == th);
    }
}

#[test]
fn cover_size_equal_ratios_keeps_both_dimensions() {
    // With matching ratios (or a truncation that lands exactly) the cover
    // size equals the target in both dimensions.
    let r = get_new_size_respecting_aspect_ratio(
        Size { width: 100, height: 100 },
        Size { width: 50, height: 50 },
    );
    assert_eq!(r, Size { width: 50, height: 50 });
    let r = get_new_size_respecting_aspect_ratio(
        Size { width: 1000, height: 2001 },
        Size { width: 10, height: 20 },
    );
    assert_eq!(r, Size { width: 10, height: 20 });
}

#[test]
fn crop_rect_centers_portrait_excess() {
    // Source 3456x5184 covered to 670x1005 for a 670x390 target: the
    // default anchor centers the window vertically.
    let rect = crop_rect(
        Size { width: 670, height: 1005 },
        Size { width: 670, height: 390 },
        &Alignment { halign: HAlign::Center, valign: VAlign::Middle, smart: false },
    );
    assert_eq!(rect, Rect { x: 0, y: 307, width: 670, height: 390 });
}

#[test]
fn crop_rect_right_bottom_anchors_at_far_edge() {
    // Source 5184x3456 covered to 1005x670 for a 390x670 target.
    let rect = crop_rect(
        Size { width: 1005, height: 670 },
        Size { width: 390, height: 670 },
        &Alignment { halign: HAlign::Right, valign: VAlign::Bottom, smart: false },
    );
    assert_eq!(rect, Rect { x: 615, y: 0, width: 390, height: 670 });
}

#[test]
fn crop_rect_stays_contained_for_every_anchor() {
    let resized = Size { width: 1005, height: 670 };
    let target = Size { width: 390, height: 155 };
    for halign in [HAlign::Left, HAlign::Center, HAlign::Right] {
        for valign in [VAlign::Top, VAlign::Middle, VAlign::Bottom] {
            let rect = crop_rect(resized, target, &Alignment { halign, valign, smart: false });
            assert!(rect.x >= 0);
            assert!(rect.y >= 0);
            assert!(rect.x + rect.width <= resized.width);
            assert!(rect.y + rect.height <= resized.height);
        }
    }
}

#[test]
fn aspect_derivation_matches_source_ratio() {
    // A missing width for a 390-high target against a 3456x5184 source.
    assert_eq!(aspect_derivation(390, 3456, 5184), 260);
    // A missing height for a 670-wide target against the same source.
    assert_eq!(aspect_derivation(670, 5184, 3456), 1005);
}
