use kelp_2d::atlas::{Atlas, Rect};
use kelp_2d::ATLAS_SIZE;

fn overlap(a: &Rect, b: &Rect) -> bool {
    let empty = a.min_x == a.max_x || a.min_y == a.max_y || b.min_x == b.max_x || b.min_y == b.max_y;
    !empty
        && !(a.max_x <= b.min_x || b.max_x <= a.min_x || a.max_y <= b.min_y || b.max_y <= a.min_y)
}

#[test]
fn allocate_returns_requested_size() {
    let mut atlas = Atlas::new();
    let (layer, rect) = atlas.allocate(64, 48).expect("first allocation fits");
    assert_eq!(layer, 0);
    assert_eq!(rect.max_x - rect.min_x, 64);
    assert_eq!(rect.max_y - rect.min_y, 48);
    assert!(rect.max_x < ATLAS_SIZE && rect.max_y < ATLAS_SIZE);
}

#[test]
fn allocations_do_not_overlap() {
    let mut atlas = Atlas::new();
    let mut rects: Vec<(u32, Rect)> = Vec::new();
    for _ in 0..32 {
        rects.push(atlas.allocate(100, 100).expect("plenty of space"));
    }
    for i in 0..rects.len() {
        for j in 0..rects.len() {
            if i != j && rects[i].0 == rects[j].0 {
                assert!(!overlap(&rects[i].1, &rects[j].1));
            }
        }
    }
}

#[test]
fn allocations_keep_a_padding_gap() {
    let mut atlas = Atlas::new();
    let (_, a) = atlas.allocate(10, 10).unwrap();
    let (_, b) = atlas.allocate(10, 10).unwrap();
    // the padded footprints are disjoint, so the returned rectangles are at
    // least one pixel apart on some axis
    let gap_x = a.max_x + 1 <= b.min_x || b.max_x + 1 <= a.min_x;
    let gap_y = a.max_y + 1 <= b.min_y || b.max_y + 1 <= a.min_y;
    assert!(gap_x || gap_y);
}

#[test]
fn rejects_oversize_requests() {
    let mut atlas = Atlas::new();
    assert!(atlas.allocate(ATLAS_SIZE, 10).is_none());
    assert!(atlas.allocate(10, ATLAS_SIZE).is_none());
}

#[test]
fn grows_layers_until_full() {
    let mut atlas = Atlas::new();
    // each allocation claims a whole layer (2047 + 1 padding = 2048)
    for expected_layer in 0..16 {
        let (layer, _) = atlas.allocate(2047, 2047).expect("one per layer");
        assert_eq!(layer, expected_layer);
    }
    assert!(atlas.allocate(2047, 2047).is_none());
}

#[test]
fn free_returns_space_for_reuse() {
    let mut atlas = Atlas::new();
    let mut last = None;
    for _ in 0..16 {
        last = Some(atlas.allocate(2047, 2047).expect("one per layer"));
    }
    assert!(atlas.allocate(2047, 2047).is_none());
    let (layer, rect) = last.unwrap();
    assert!(atlas.free(layer, rect));
    let (again_layer, _) = atlas.allocate(2047, 2047).expect("freed space is reused");
    assert_eq!(again_layer, layer);
}

#[test]
fn free_of_unknown_rectangle_is_refused() {
    let mut atlas = Atlas::new();
    let _ = atlas.allocate(10, 10).unwrap();
    let bogus = Rect { min_x: 500, min_y: 500, max_x: 510, max_y: 510 };
    assert!(!atlas.free(0, bogus));
}

#[test]
fn rect_getters() {
    let r = Rect { min_x: 3, min_y: 4, max_x: 10, max_y: 20 };
    assert_eq!(r.width(), 7);
    assert_eq!(r.height(), 16);
}
