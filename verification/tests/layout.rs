use orbit::config::LayoutConfig;
use orbit::geometry::{Frame, Rect};
use orbit::workspace::Workspace;
use orbit::layout::{
    check_dwindle_fits, check_layout_fits, check_master_stack_fits, dwindle_frames, master_stack_frames,
    placements, plan_layout, tiling_area, MasterSplit, BAR_RESERVE,
};

fn cfg(gap: i32, name: Option<&str>) -> LayoutConfig {
    LayoutConfig { gap_size: gap, layout_type: name.map(|s| s.to_string()) }
}

fn frame(x: i32, y: i32, w: i32, h: i32) -> Frame {
    Frame { x, y, w, h }
}

fn plan(n: i32, area: Rect, config: &LayoutConfig, split: MasterSplit) -> Vec<Frame> {
    assert!(check_layout_fits(n, area, config, split));
    plan_layout(n, area, config, split)
}

const AREA: Rect = Rect { left: 0, top: 34, right: 1920, bottom: 1080 };
const SPLIT: MasterSplit = MasterSplit { width: 960, margin: 18 };

fn overlap(a: &Frame, b: &Frame) -> bool {
    let (ax2, ay2, bx2, by2) = (a.x + a.w, a.y + a.h, b.x + b.w, b.y + b.h);
    a.w > 0 && a.h > 0 && b.w > 0 && b.h > 0 && a.x < bx2 && b.x < ax2 && a.y < by2 && b.y < ay2
}

fn inside(f: &Frame, area: Rect, gap: i32) -> bool {
    f.w <= 0
        || f.h <= 0
        || (f.x >= area.left + gap
            && f.y >= area.top + gap
            && f.x + f.w <= area.right - gap
            && f.y + f.h <= area.bottom - gap)
}

#[test]
fn tiling_area_reserves_bar_strip() {
    let wa = Rect { left: 0, top: 0, right: 1920, bottom: 1080 };
    assert_eq!(tiling_area(wa), Rect { left: 0, top: BAR_RESERVE, right: 1920, bottom: 1080 });
    assert_eq!(BAR_RESERVE, 34);
}

#[test]
fn no_window_no_tile() {
    assert!(plan(0, AREA, &cfg(12, Some("dwindle")), SPLIT).is_empty());
}

#[test]
fn single_window_fills_area_less_gap() {
    for name in [Some("dwindle"), Some("master"), None] {
        let out = plan(1, AREA, &cfg(12, name), SPLIT);
        assert_eq!(out, vec![frame(12, 46, 1896, 1022)]);
    }
}

#[test]
fn dwindle_two_windows_side_by_side() {
    let out = plan(2, AREA, &cfg(12, Some("dwindle")), SPLIT);
    // inner region 1896 x 1022 at (12, 46): wider than tall, split side by side
    assert_eq!(out, vec![frame(12, 46, 942, 1022), frame(966, 46, 942, 1022)]);
}

#[test]
fn dwindle_three_windows_spiral() {
    let out = plan(3, AREA, &cfg(12, Some("dwindle")), SPLIT);
    assert_eq!(
        out,
        vec![frame(12, 46, 942, 1022), frame(966, 46, 942, 505), frame(966, 563, 942, 505)]
    );
}

#[test]
fn dwindle_tall_region_splits_top_bottom() {
    let out = dwindle_frames(0, 0, 100, 300, 10, 2);
    assert_eq!(out, vec![frame(0, 0, 100, 145), frame(0, 155, 100, 145)]);
}

#[test]
fn dwindle_square_region_splits_top_bottom() {
    let out = dwindle_frames(0, 0, 100, 100, 0, 2);
    assert_eq!(out, vec![frame(0, 0, 100, 50), frame(0, 50, 100, 50)]);
}

#[test]
fn dwindle_rounds_toward_zero() {
    // (5 - 12) / 2 is -3 in Rust: rounded toward zero
    let out = dwindle_frames(0, 0, 5, 1, 12, 2);
    assert_eq!(out, vec![frame(0, 0, -3, 1), frame(9, 0, -4, 1)]);
}

#[test]
fn dwindle_negative_count_places_nothing() {
    assert!(dwindle_frames(0, 0, 100, 100, 0, -4).is_empty());
}

#[test]
fn master_stack_three_windows() {
    let out = plan(3, AREA, &cfg(12, None), SPLIT);
    assert_eq!(
        out,
        vec![frame(12, 46, 942, 1022), frame(966, 46, 942, 505), frame(966, 563, 942, 505)]
    );
}

#[test]
fn master_stack_is_default_for_unknown_names() {
    let a = plan(4, AREA, &cfg(12, Some("monocle")), SPLIT);
    let b = plan(4, AREA, &cfg(12, Some("master")), SPLIT);
    assert_eq!(a, b);
    assert_eq!(a.len(), 4);
    // stack height: (1046 - 12 * 4) / 3 = 332
    assert_eq!(a[1], frame(966, 46, 942, 332));
    assert_eq!(a[2], frame(966, 390, 942, 332));
    assert_eq!(a[3], frame(966, 734, 942, 332));
}

#[test]
fn master_stack_frames_direct() {
    let out = master_stack_frames(0, 0, 100, 100, 0, 3, 50);
    assert_eq!(out, vec![frame(0, 0, 50, 100), frame(50, 0, 50, 50), frame(50, 50, 50, 50)]);
}

#[test]
fn master_stack_negative_count_places_master_only() {
    let out = master_stack_frames(0, 0, 100, 100, 0, -3, 50);
    assert_eq!(out, vec![frame(0, 0, 50, 100)]);
}

#[test]
fn layout_gives_one_tile_per_window() {
    for n in 1..12 {
        assert_eq!(plan(n, AREA, &cfg(12, Some("dwindle")), SPLIT).len(), n as usize);
        assert_eq!(plan(n, AREA, &cfg(12, None), SPLIT).len(), n as usize);
    }
}

#[test]
fn layout_tiles_disjoint_and_inside() {
    for gap in [0, 5, 12, 40] {
        for n in 1..10 {
            for name in [Some("dwindle"), None] {
                let out = plan(n, AREA, &cfg(gap, name), SPLIT);
                for i in 0..out.len() {
                    assert!(inside(&out[i], AREA, gap), "gap {} n {} tile {}", gap, n, i);
                    for j in i + 1..out.len() {
                        assert!(!overlap(&out[i], &out[j]), "gap {} n {} tiles {} {}", gap, n, i, j);
                    }
                }
            }
        }
    }
}

#[test]
fn overflow_is_detected() {
    let big = cfg(i32::MAX, Some("dwindle"));
    assert!(!check_layout_fits(1, AREA, &big, SPLIT));
    let wide = Rect { left: i32::MIN, top: 0, right: i32::MAX, bottom: 10 };
    assert!(!check_layout_fits(1, wide, &cfg(0, None), SPLIT));
    assert!(check_layout_fits(0, AREA, &big, SPLIT));
    assert!(!check_dwindle_fits(i32::MAX - 5, 0, 100, 10, 0, 2));
    assert!(check_dwindle_fits(0, 0, 100, 10, 0, 2));
    assert!(!check_master_stack_fits(0, 0, 100, 100, i32::MAX / 2, 3, 10));
    assert!(check_master_stack_fits(0, 0, 100, 100, 1, 3, 10));
    assert!(!check_master_stack_fits(0, 0, 100, 100, 1, 1, 10));
}

#[test]
fn placements_pair_survivors_in_order() {
    let mut ws = Workspace::new();
    for h in [11isize, 22, 33, 44] {
        ws.adopt(h);
    }
    ws.prune(&vec![true, false, true, true]);
    let config = cfg(12, Some("dwindle"));
    assert!(check_layout_fits(ws.tile_count(), AREA, &config, SPLIT));
    let placed = placements(&ws, AREA, &config, SPLIT);
    let frames = plan(3, AREA, &config, SPLIT);
    assert_eq!(placed, vec![(11, frames[0]), (33, frames[1]), (44, frames[2])]);
}

#[test]
fn other_names_select_master_stack() {
    let master = plan(5, AREA, &cfg(12, None), SPLIT);
    for name in ["master", "Dwindle", "", "dwindle "] {
        assert_eq!(plan(5, AREA, &cfg(12, Some(name)), SPLIT), master);
    }
    assert_ne!(plan(5, AREA, &cfg(12, Some("dwindle")), SPLIT), master);
}
