use termplay::buffer::group_runs;
use termplay::buffer::BufferDiffIter;
use termplay::buffer::Differ;
use termplay::buffer::Pixel;
use termplay::buffer::Run;
use termplay::color::Rgb;

fn px(r: u8, g: u8, b: u8, x: u8) -> Pixel {
    Pixel { r, g, b, x }
}

#[test]
fn diff_of_identical_grids_is_empty() {
    let grid = vec![px(1, 2, 3, 65), px(4, 5, 6, 66), px(7, 8, 9, 67)];
    let mut differ: Differ<Rgb> = Differ::new(3, 1);
    differ.assign_diff(&grid, &grid);
    assert_eq!(differ.data().len(), 0);
}

#[test]
fn diff_of_single_change_is_one_unit_run() {
    let prev = vec![px(0, 0, 0, 32); 6];
    let mut curr = prev.clone();
    curr[4] = px(9, 8, 7, 88);
    let mut differ: Differ<Rgb> = Differ::new(3, 2);
    differ.assign_diff(&curr, &prev);
    let runs = differ.data();
    assert_eq!(runs.len(), 1);
    assert_eq!(runs[0].start, 4);
    assert_eq!(runs[0].end, 5);
    assert_eq!(runs[0].color, Rgb { r: 9, g: 8, b: 7 });
    assert_eq!(runs[0].glyph, 88);
}

#[test]
fn diff_covers_changed_cells_exactly_once() {
    let prev = vec![
        px(0, 0, 0, 32),
        px(1, 1, 1, 33),
        px(2, 2, 2, 34),
        px(3, 3, 3, 35),
        px(4, 4, 4, 36),
        px(5, 5, 5, 37),
    ];
    let curr = vec![
        px(9, 9, 9, 70),
        px(1, 1, 1, 33),
        px(9, 9, 9, 70),
        px(9, 9, 9, 70),
        px(4, 4, 4, 36),
        px(8, 8, 8, 71),
    ];
    let mut differ: Differ<Rgb> = Differ::new(6, 1);
    differ.assign_diff(&curr, &prev);
    let runs = differ.data();
    let mut cover_count = vec![0usize; curr.len()];
    for run in runs.iter() {
        assert!(run.start < run.end && run.end <= curr.len());
        for idx in run.start..run.end {
            assert_ne!(curr[idx], prev[idx], "a run covered an unchanged cell");
            cover_count[idx] += 1;
        }
    }
    for idx in 0..curr.len() {
        let expected = if curr[idx] != prev[idx] { 1 } else { 0 };
        assert_eq!(cover_count[idx], expected, "coverage wrong at {idx}");
    }
}

#[test]
fn diff_run_extends_while_current_value_constant() {
    // Both changed cells hold one current value, so they form one run even
    // though their previous values differ from each other.
    let prev = vec![px(1, 1, 1, 40), px(2, 2, 2, 41), px(3, 3, 3, 42)];
    let curr = vec![px(7, 7, 7, 50), px(7, 7, 7, 50), px(3, 3, 3, 42)];
    let mut it = BufferDiffIter::new(&curr, &prev);
    let (start, end, item) = it.next().expect("one run expected");
    assert_eq!((start, end), (0, 2));
    assert_eq!(item, px(7, 7, 7, 50));
    assert!(it.next().is_none());
}

#[test]
fn diff_run_breaks_where_current_value_changes() {
    let prev = vec![px(0, 0, 0, 30); 4];
    let curr = vec![px(1, 1, 1, 31), px(1, 1, 1, 31), px(2, 2, 2, 32), px(0, 0, 0, 30)];
    let mut it = BufferDiffIter::new(&curr, &prev);
    assert_eq!(it.next(), Some((0, 2, px(1, 1, 1, 31))));
    assert_eq!(it.next(), Some((2, 3, px(2, 2, 2, 32))));
    assert_eq!(it.next(), None);
}

fn style_of(run: &Run<Rgb>) -> (Rgb, u8) {
    (run.color, run.glyph)
}

#[test]
fn grouping_preserves_runs_and_clusters_styles() {
    let mk = |start: usize, end: usize, c: u8, glyph: u8| Run::<Rgb> {
        start,
        end,
        color: Rgb { r: c, g: c, b: c },
        glyph,
    };
    let input = vec![mk(0, 1, 1, 65), mk(2, 3, 2, 66), mk(4, 5, 1, 65), mk(6, 7, 3, 67), mk(8, 9, 2, 66)];
    let mut runs = input.clone();
    group_runs(&mut runs);

    // Same runs, only reordered: sort both by (start, end) and compare.
    let key = |r: &Run<Rgb>| (r.start, r.end, r.color.r, r.glyph);
    let mut a: Vec<_> = input.iter().map(key).collect();
    let mut b: Vec<_> = runs.iter().map(key).collect();
    a.sort();
    b.sort();
    assert_eq!(a, b, "grouping created, destroyed or mutated a run");

    // Equal styles are adjacent: once a style ends, it never reappears.
    let mut seen: Vec<(Rgb, u8)> = Vec::new();
    for run in runs.iter() {
        let s = style_of(run);
        match seen.last() {
            Some(last) if *last == s => {}
            _ => {
                assert!(!seen.contains(&s), "style {s:?} appears in two separate clusters");
                seen.push(s);
            }
        }
    }
}
