use russsty::fixed::FX_ONE;
use russsty::math::vec2::Vec2;
use russsty::sorting::{
    bubble_sort_by_depth_descending, merge_sort_by_depth_descending,
    quick_sort_by_depth_descending,
};
use russsty::triangle::Triangle;

fn tri_with_depth(depth: i64, tag: u32) -> Triangle {
    let mut t = Triangle::new(
        [Vec2::new(0, 0), Vec2::new(1, 0), Vec2::new(0, 1)],
        tag,
    );
    t.avg_depth = depth;
    t
}

fn depths(v: &[Triangle]) -> Vec<i64> {
    v.iter().map(|t| t.avg_depth).collect()
}

fn all_sorts() -> [fn(&mut Vec<Triangle>); 3] {
    [
        bubble_sort_by_depth_descending,
        merge_sort_by_depth_descending,
        quick_sort_by_depth_descending,
    ]
}

#[test]
fn sorts_three_one_two_descending() {
    for sort in all_sorts() {
        let mut v = vec![
            tri_with_depth(3 * FX_ONE, 1),
            tri_with_depth(1 * FX_ONE, 2),
            tri_with_depth(2 * FX_ONE, 3),
        ];
        sort(&mut v);
        assert_eq!(depths(&v), vec![3 * FX_ONE, 2 * FX_ONE, 1 * FX_ONE]);
    }
}

#[test]
fn sorted_input_is_unchanged() {
    for sort in all_sorts() {
        let mut v = vec![
            tri_with_depth(5 * FX_ONE, 1),
            tri_with_depth(4 * FX_ONE, 2),
            tri_with_depth(4 * FX_ONE, 3),
            tri_with_depth(1 * FX_ONE, 4),
        ];
        let before: Vec<u32> = v.iter().map(|t| t.color).collect();
        sort(&mut v);
        let after: Vec<u32> = v.iter().map(|t| t.color).collect();
        assert_eq!(before, after);
    }
}

#[test]
fn sorting_is_idempotent() {
    for sort in all_sorts() {
        let mut v = vec![
            tri_with_depth(2, 1),
            tri_with_depth(9, 2),
            tri_with_depth(9, 3),
            tri_with_depth(-4, 4),
            tri_with_depth(7, 5),
        ];
        sort(&mut v);
        let once: Vec<(i64, u32)> = v.iter().map(|t| (t.avg_depth, t.color)).collect();
        sort(&mut v);
        let twice: Vec<(i64, u32)> = v.iter().map(|t| (t.avg_depth, t.color)).collect();
        assert_eq!(once, twice);
    }
}

#[test]
fn sorts_preserve_the_collection() {
    for sort in all_sorts() {
        let mut v = vec![
            tri_with_depth(1, 10),
            tri_with_depth(3, 30),
            tri_with_depth(2, 20),
            tri_with_depth(3, 31),
        ];
        sort(&mut v);
        assert_eq!(v.len(), 4);
        let mut tags: Vec<u32> = v.iter().map(|t| t.color).collect();
        tags.sort();
        assert_eq!(tags, vec![10, 20, 30, 31]);
        assert_eq!(depths(&v), vec![3, 3, 2, 1]);
    }
}

#[test]
fn empty_and_singleton_are_fine() {
    for sort in all_sorts() {
        let mut empty: Vec<Triangle> = Vec::new();
        sort(&mut empty);
        assert!(empty.is_empty());
        let mut one = vec![tri_with_depth(7, 1)];
        sort(&mut one);
        assert_eq!(depths(&one), vec![7]);
    }
}

#[test]
fn negative_depths_sort_descending() {
    for sort in all_sorts() {
        let mut v = vec![
            tri_with_depth(-3, 1),
            tri_with_depth(5, 2),
            tri_with_depth(0, 3),
            tri_with_depth(-1, 4),
        ];
        sort(&mut v);
        assert_eq!(depths(&v), vec![5, 0, -1, -3]);
    }
}
