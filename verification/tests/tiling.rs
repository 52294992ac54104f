use sidescroll::background::Background;
use sidescroll::drawable::Drawable;
use sidescroll::frame::{DrawCmd, Frame};
use sidescroll::units::{MAX_DELTA_US, MAX_OFFSET, MAX_SPEED, SCALE, VIEW_SPAN};

// All positions are nano-units: 1_000_000_000 is one logical unit.
// A tile width of 1.4 units is 1_400_000_000; a speed of 0.05 units per
// second is 50 nano-units per microsecond; one second is 1_000_000 us.

fn tile_xs(bg: &Background) -> Vec<i64> {
    let frame = bg.draw(Frame::new());
    frame
        .cmds
        .iter()
        .map(|c| match c {
            DrawCmd::Tile { x, .. } => *x,
            DrawCmd::External { .. } => panic!("a band draws tiles only"),
        })
        .collect()
}

#[test]
fn scenario_a_three_tiles_from_origin() {
    let bg = Background::new(0, 1_400_000_000, 50, 2 * SCALE);
    assert_eq!(bg.tile_count(), 3);
    let xs = tile_xs(&bg);
    assert_eq!(xs, vec![-1_000_000_000, 400_000_000, 1_800_000_000]);
}

#[test]
fn scenario_a_tiles_pinned_to_bottom() {
    let bg = Background::new(3, 1_400_000_000, 50, 1_500_000_000);
    let frame = bg.draw(Frame::new());
    for c in frame.cmds.iter() {
        match c {
            DrawCmd::Tile { tag, y, .. } => {
                assert_eq!(*tag, 3);
                assert_eq!(*y, 1_500_000_000 - SCALE);
            }
            DrawCmd::External { .. } => panic!("a band draws tiles only"),
        }
    }
}

#[test]
fn scenario_b_one_second_shifts_edges_left() {
    let mut bg = Background::new(0, 1_400_000_000, 50, 2 * SCALE);
    let before = tile_xs(&bg);
    bg.update(1_000_000);
    assert_eq!(bg.offset, -50_000_000);
    let after = tile_xs(&bg);
    assert_eq!(after.len(), before.len());
    for (a, b) in after.iter().zip(before.iter()) {
        assert_eq!(*a, *b - 50_000_000);
    }
}

#[test]
fn update_accumulates_linearly() {
    let mut many = Background::new(0, 1_400_000_000, 50, 2 * SCALE);
    many.update(250_000);
    many.update(300_000);
    many.update(450_000);
    let mut once = Background::new(0, 1_400_000_000, 50, 2 * SCALE);
    once.update(1_000_000);
    assert_eq!(many.offset, once.offset);
}

#[test]
fn zero_speed_is_static() {
    let mut bg = Background::new(0, 700_000_000, 0, SCALE);
    let before = tile_xs(&bg);
    bg.update(5_000_000);
    assert_eq!(bg.offset, 0);
    assert_eq!(tile_xs(&bg), before);
}

#[test]
fn negative_speed_scrolls_right() {
    let mut bg = Background::new(0, 700_000_000, -50, SCALE);
    bg.update(1_000_000);
    assert_eq!(bg.offset, 50_000_000);
}

#[test]
fn whole_tile_offsets_place_like_origin() {
    let origin = Background::new(0, 1_400_000_000, 50, 2 * SCALE);
    for k in [-3i64, -1, 1, 5] {
        let shifted = Background {
            offset: k * 1_400_000_000,
            ..origin
        };
        assert_eq!(tile_xs(&shifted), tile_xs(&origin), "k = {}", k);
    }
}

#[test]
fn periodic_for_any_whole_width_shift() {
    // Any whole number of tile widths, in either direction and across zero.
    let base = Background {
        offset: -300_000_000,
        ..Background::new(0, 1_400_000_000, 50, 2 * SCALE)
    };
    for k in [-4i64, -2, -1, 1, 2, 4] {
        let shifted = Background {
            offset: -300_000_000 + k * 1_400_000_000,
            ..base
        };
        assert_eq!(tile_xs(&shifted), tile_xs(&base), "k = {}", k);
    }
}

#[test]
fn periodic_across_zero() {
    // A one-width shift from -0.7 to +0.7 crosses zero and still places the
    // row identically: the reduction window does not depend on the sign.
    let neg = Background {
        offset: -700_000_000,
        ..Background::new(0, 1_400_000_000, 50, 2 * SCALE)
    };
    let pos = Background {
        offset: 700_000_000,
        ..neg
    };
    assert_eq!(tile_xs(&pos), tile_xs(&neg));
}

#[test]
fn tiles_cover_viewport_for_any_offset() {
    for (bw, off) in [
        (1_400_000_000i64, -999_999_999i64),
        (300_000_000, -1),
        (2_500_000_000, -2_499_999_999),
        (1_000_000_000, 0),
        // rightward scroll (negative speed) drives the offset positive
        (2_000_000_000, 1_000_000_000),
        (1_400_000_000, 700_000_000),
        (300_000_000, 299_999_999),
    ] {
        let bg = Background {
            offset: off,
            ..Background::new(0, bw, 50, SCALE)
        };
        let xs = tile_xs(&bg);
        assert!(xs[0] <= -SCALE, "first tile starts at or before the left edge");
        for w in xs.windows(2) {
            assert_eq!(w[1] - w[0], bw, "tiles abut seamlessly");
        }
        assert!(xs[xs.len() - 1] + bw >= SCALE, "last tile reaches the right edge");
    }
}

#[test]
fn wide_tile_still_covered() {
    let bg = Background::new(0, 10 * SCALE, 50, SCALE);
    assert_eq!(bg.tile_count(), 2);
    let xs = tile_xs(&bg);
    assert_eq!(xs, vec![-SCALE, 9 * SCALE]);
}

#[test]
fn offset_normalization_reduces_by_whole_tiles() {
    let mut bg = Background {
        offset: MAX_OFFSET,
        ..Background::new(0, 1_400_000_000, -MAX_SPEED, 2 * SCALE)
    };
    bg.update(MAX_DELTA_US);
    // The raw offset MAX_OFFSET + MAX_DELTA_US * MAX_SPEED leaves the
    // representable window, so it is reduced by whole tile widths, which
    // leaves every tile placement unchanged.
    let raw: i64 = MAX_OFFSET + (MAX_DELTA_US as i64) * MAX_SPEED;
    let reduced: i64 = match raw % 1_400_000_000 {
        0 => 0,
        r => r - 1_400_000_000,
    };
    assert_eq!(bg.offset, reduced);
    let shifted_back = Background {
        offset: raw % 1_400_000_000,
        ..bg
    };
    assert_eq!(tile_xs(&bg), tile_xs(&shifted_back));
}

#[test]
fn viewport_spans_two_units() {
    assert_eq!(VIEW_SPAN, 2 * SCALE);
}
