use marching_squares::contour::{
    extract_contour, sample_cell, segments_for_case, Cell, Corner, Edge, Emission, Segment,
};
use marching_squares::field::VoxelMap;

fn cell_of(v0: f32, v1: f32, v2: f32, v3: f32) -> Cell {
    Cell { x: 0, y: 0, v0: v0.to_bits(), v1: v1.to_bits(), v2: v2.to_bits(), v3: v3.to_bits() }
}

fn seg(from: Edge, to: Edge) -> Segment {
    Segment { from, to }
}

fn corner_point(corner: Corner) -> (f32, f32) {
    let (dx, dy) = corner.grid_offset();
    (dx as f32, dy as f32)
}

fn point_on(cell: &Cell, edge: Edge) -> (f32, f32) {
    let (first, second) = edge.corners();
    let start = corner_point(first);
    let end = corner_point(second);
    let v1 = f32::from_bits(cell.density_at(first));
    let v2 = f32::from_bits(cell.density_at(second));
    if (v2 - v1).abs() < 0.0001 {
        return start;
    }
    let t = (0.5 - v1) / (v2 - v1);
    (start.0 + (end.0 - start.0) * t, start.1 + (end.1 - start.1) * t)
}

fn lines(out: &[Emission]) -> Vec<(i32, i32, Segment)> {
    let mut found = Vec::new();
    for e in out {
        if let Emission::Line(cell, segment) = e {
            found.push((cell.x, cell.y, *segment));
        }
    }
    found
}

fn markers(out: &[Emission]) -> Vec<(i32, i32)> {
    let mut found = Vec::new();
    for e in out {
        if let Emission::Marker(cell) = e {
            found.push((cell.x, cell.y));
        }
    }
    found
}

const A: Edge = Edge::Left;
const B: Edge = Edge::Top;
const C: Edge = Edge::Right;
const D: Edge = Edge::Bottom;

#[test]
fn table_has_the_sixteen_cases() {
    assert_eq!(segments_for_case(0), vec![]);
    assert_eq!(segments_for_case(1), vec![seg(A, D)]);
    assert_eq!(segments_for_case(2), vec![seg(D, C)]);
    assert_eq!(segments_for_case(3), vec![seg(A, C)]);
    assert_eq!(segments_for_case(4), vec![seg(C, B)]);
    assert_eq!(segments_for_case(5), vec![seg(A, D), seg(B, C)]);
    assert_eq!(segments_for_case(6), vec![seg(D, B)]);
    assert_eq!(segments_for_case(7), vec![seg(A, B)]);
    assert_eq!(segments_for_case(8), vec![seg(A, B)]);
    assert_eq!(segments_for_case(9), vec![seg(D, B)]);
    assert_eq!(segments_for_case(10), vec![seg(A, B), seg(C, D)]);
    assert_eq!(segments_for_case(11), vec![seg(C, B)]);
    assert_eq!(segments_for_case(12), vec![seg(A, C)]);
    assert_eq!(segments_for_case(13), vec![seg(D, C)]);
    assert_eq!(segments_for_case(14), vec![seg(A, D)]);
    assert_eq!(segments_for_case(15), vec![]);
}

#[test]
fn numbers_beyond_the_table_give_nothing() {
    for case in 16..=255u8 {
        assert_eq!(segments_for_case(case), vec![]);
    }
}

#[test]
fn edges_join_their_corners() {
    assert_eq!(Edge::Left.corners(), (Corner::BottomLeft, Corner::TopLeft));
    assert_eq!(Edge::Top.corners(), (Corner::TopLeft, Corner::TopRight));
    assert_eq!(Edge::Right.corners(), (Corner::BottomRight, Corner::TopRight));
    assert_eq!(Edge::Bottom.corners(), (Corner::BottomLeft, Corner::BottomRight));
}

#[test]
fn corners_lie_around_the_cell() {
    assert_eq!(Corner::BottomLeft.grid_offset(), (0, 0));
    assert_eq!(Corner::BottomRight.grid_offset(), (1, 0));
    assert_eq!(Corner::TopRight.grid_offset(), (1, 1));
    assert_eq!(Corner::TopLeft.grid_offset(), (0, 1));
}

#[test]
fn case_index_weighs_the_corners() {
    assert_eq!(cell_of(0.0, 0.0, 0.0, 0.0).case_index(), 0);
    assert_eq!(cell_of(1.0, 0.0, 0.0, 0.0).case_index(), 1);
    assert_eq!(cell_of(0.0, 1.0, 0.0, 0.0).case_index(), 2);
    assert_eq!(cell_of(0.0, 0.0, 1.0, 0.0).case_index(), 4);
    assert_eq!(cell_of(0.0, 0.0, 0.0, 1.0).case_index(), 8);
    assert_eq!(cell_of(1.0, 1.0, 1.0, 1.0).case_index(), 15);
    assert_eq!(cell_of(1.0, 0.0, 1.0, 0.0).case_index(), 5);
    assert_eq!(cell_of(0.0, 1.0, 0.0, 1.0).case_index(), 10);
}

#[test]
fn every_case_index_is_reached() {
    for case in 0..16u8 {
        let v = |bit: u8| if case & bit != 0 { 0.8 } else { 0.2 };
        let cell = cell_of(v(1), v(2), v(4), v(8));
        assert_eq!(cell.case_index(), case);
        assert_eq!(cell.segments(), segments_for_case(case));
    }
}

#[test]
fn threshold_counts_as_solid() {
    assert_eq!(cell_of(0.5, 0.5, 0.5, 0.5).case_index(), 15);
    assert_eq!(cell_of(0.49999997, 0.49999997, 0.49999997, 0.49999997).case_index(), 0);
    assert_eq!(cell_of(0.5, 0.49999997, 0.50000006, 0.0).case_index(), 5);
}

#[test]
fn uniform_cells_have_no_segment() {
    for v in [0.0f32, 0.1, 0.49999997] {
        let cell = cell_of(v, v, v, v);
        assert_eq!(cell.case_index(), 0);
        assert_eq!(cell.segments(), vec![]);
    }
    for v in [0.5f32, 0.75, 1.0] {
        let cell = cell_of(v, v, v, v);
        assert_eq!(cell.case_index(), 15);
        assert_eq!(cell.segments(), vec![]);
    }
    assert_eq!(cell_of(0.1, 0.2, 0.3, 0.4).segments(), vec![]);
    assert_eq!(cell_of(0.9, 0.8, 0.7, 0.6).segments(), vec![]);
}

#[test]
fn opposite_corners_give_two_segments() {
    assert_eq!(cell_of(1.0, 0.0, 1.0, 0.0).segments(), vec![seg(A, D), seg(B, C)]);
    assert_eq!(cell_of(0.0, 1.0, 0.0, 1.0).segments(), vec![seg(A, B), seg(C, D)]);
}

#[test]
fn segment_ends_lie_on_crossed_edges() {
    for case in 0..16u8 {
        let v = |bit: u8| if case & bit != 0 { 0.9f32 } else { 0.3f32 };
        let cell = cell_of(v(1), v(2), v(4), v(8));
        for segment in cell.segments() {
            for edge in [segment.from, segment.to] {
                let (first, second) = edge.corners();
                let one = f32::from_bits(cell.density_at(first)) >= 0.5;
                let other = f32::from_bits(cell.density_at(second)) >= 0.5;
                assert_ne!(one, other);
            }
            assert_ne!(segment.from, segment.to);
        }
    }
}

#[test]
fn right_half_solid_is_bisected() {
    let cell = cell_of(0.0, 1.0, 1.0, 0.0);
    assert_eq!(cell.case_index(), 6);
    let segments = cell.segments();
    assert_eq!(segments, vec![seg(D, B)]);
    assert_eq!(point_on(&cell, segments[0].from), (0.5, 0.0));
    assert_eq!(point_on(&cell, segments[0].to), (0.5, 1.0));
}

#[test]
fn densities_are_read_by_corner() {
    let cell = cell_of(0.1, 0.2, 0.3, 0.4);
    assert_eq!(f32::from_bits(cell.density_at(Corner::BottomLeft)), 0.1);
    assert_eq!(f32::from_bits(cell.density_at(Corner::BottomRight)), 0.2);
    assert_eq!(f32::from_bits(cell.density_at(Corner::TopRight)), 0.3);
    assert_eq!(f32::from_bits(cell.density_at(Corner::TopLeft)), 0.4);
}

#[test]
fn cell_is_sampled_counter_clockwise() {
    let mut map = VoxelMap::new(3, 3).unwrap();
    map.modify_density(1, 1, 0.1f32.to_bits());
    map.modify_density(2, 1, 0.2f32.to_bits());
    map.modify_density(2, 2, 0.3f32.to_bits());
    map.modify_density(1, 2, 0.4f32.to_bits());
    let cell = sample_cell(&map, 1, 1);
    let mut expected = cell_of(0.1, 0.2, 0.3, 0.4);
    expected.x = 1;
    expected.y = 1;
    assert_eq!(cell, expected);
}

#[test]
fn cell_beyond_the_field_reads_empty_corners() {
    let map = VoxelMap::new(3, 3).unwrap();
    let cell = sample_cell(&map, 2, 2);
    assert_eq!((cell.v0, cell.v1, cell.v2, cell.v3), (1.0f32.to_bits(), 0, 0, 0));
    assert_eq!(cell.case_index(), 1);
    let cell = sample_cell(&map, -1, -1);
    assert_eq!((cell.v0, cell.v1, cell.v2, cell.v3), (0, 0, 1.0f32.to_bits(), 0));
    let cell = sample_cell(&map, i32::MAX, i32::MAX);
    assert_eq!((cell.x, cell.y), (i32::MAX, i32::MAX));
    assert_eq!((cell.v0, cell.v1, cell.v2, cell.v3), (0, 0, 0, 0));
    let cell = sample_cell(&map, i32::MIN, 0);
    assert_eq!((cell.v0, cell.v1, cell.v2, cell.v3), (0, 0, 0, 0));
}

#[test]
fn solid_field_has_no_contour() {
    let map = VoxelMap::new(4, 4).unwrap();
    for y in 0..4 {
        for x in 0..4 {
            assert_eq!(f32::from_bits(map.get_density(x, y)), 1.0);
        }
    }
    for y in 0..3 {
        for x in 0..3 {
            assert_eq!(sample_cell(&map, x, y).case_index(), 15);
        }
    }
    assert_eq!(extract_contour(&map, false), vec![]);
    let with_markers = extract_contour(&map, true);
    assert_eq!(lines(&with_markers), vec![]);
    assert_eq!(with_markers.len(), 9);
}

#[test]
fn empty_field_has_no_contour_and_no_marker() {
    let mut map = VoxelMap::new(4, 4).unwrap();
    for y in 0..4 {
        for x in 0..4 {
            map.modify_density(x, y, 0.0f32.to_bits());
        }
    }
    assert_eq!(extract_contour(&map, false), vec![]);
    assert_eq!(extract_contour(&map, true), vec![]);
}

#[test]
fn one_dug_sample_is_ringed() {
    let mut map = VoxelMap::new(4, 4).unwrap();
    let target = f32::from_bits(map.get_density(1, 1)) + -1.0;
    map.modify_density(1, 1, target.to_bits());
    assert_eq!(f32::from_bits(map.get_density(1, 1)), 0.0);
    assert_eq!(sample_cell(&map, 1, 1).case_index(), 14);
    assert_eq!(sample_cell(&map, 0, 0).case_index(), 11);
    assert_eq!(sample_cell(&map, 1, 0).case_index(), 7);
    assert_eq!(sample_cell(&map, 0, 1).case_index(), 13);
    assert_eq!(sample_cell(&map, 2, 2).case_index(), 15);
    let out = extract_contour(&map, false);
    assert_eq!(
        lines(&out),
        vec![(0, 0, seg(C, B)), (1, 0, seg(A, B)), (0, 1, seg(D, C)), (1, 1, seg(A, D))]
    );
    assert_eq!(out.len(), 4);
    for e in &out {
        if let Emission::Line(cell, segment) = e {
            assert_eq!(*cell, sample_cell(&map, cell.x, cell.y));
            let touches = (cell.x == 0 || cell.x == 1) && (cell.y == 0 || cell.y == 1);
            assert!(touches);
            assert_eq!(vec![*segment], cell.segments());
        }
    }
}

#[test]
fn dig_past_zero_is_clamped_and_ringed() {
    let mut map = VoxelMap::new(4, 4).unwrap();
    let target = f32::from_bits(map.get_density(1, 1)) + -1.5;
    map.modify_density(1, 1, target.to_bits());
    assert_eq!(f32::from_bits(map.get_density(1, 1)), 0.0);
    assert_eq!(lines(&extract_contour(&map, true)).len(), 4);
}

#[test]
fn markers_come_before_the_lines_of_their_cell() {
    let mut map = VoxelMap::new(3, 3).unwrap();
    map.modify_density(1, 1, 0.0f32.to_bits());
    let out = extract_contour(&map, true);
    let c00 = sample_cell(&map, 0, 0);
    let c10 = sample_cell(&map, 1, 0);
    let c01 = sample_cell(&map, 0, 1);
    let c11 = sample_cell(&map, 1, 1);
    assert_eq!(
        out,
        vec![
            Emission::Marker(c00),
            Emission::Line(c00, seg(C, B)),
            Emission::Marker(c10),
            Emission::Line(c10, seg(A, B)),
            Emission::Marker(c01),
            Emission::Line(c01, seg(D, C)),
            Emission::Line(c11, seg(A, D)),
        ]
    );
    assert_eq!(markers(&out), vec![(0, 0), (1, 0), (0, 1)]);
}

#[test]
fn faint_sample_is_marked_but_not_solid() {
    let mut map = VoxelMap::new(2, 2).unwrap();
    for (x, y) in [(0, 0), (1, 0), (0, 1), (1, 1)] {
        map.modify_density(x, y, 0.1f32.to_bits());
    }
    let out = extract_contour(&map, true);
    assert_eq!(out, vec![Emission::Marker(sample_cell(&map, 0, 0))]);
}

#[test]
fn last_row_and_column_start_no_cell() {
    let mut map = VoxelMap::new(3, 2).unwrap();
    map.modify_density(2, 1, 0.0f32.to_bits());
    let out = extract_contour(&map, true);
    assert_eq!(markers(&out), vec![(0, 0), (1, 0)]);
    assert_eq!(sample_cell(&map, 1, 0).case_index(), 11);
    assert_eq!(lines(&out), vec![(1, 0, seg(C, B))]);
}

#[test]
fn single_row_or_column_has_no_cell() {
    let mut row = VoxelMap::new(5, 1).unwrap();
    row.modify_density(2, 0, 0.0f32.to_bits());
    assert_eq!(extract_contour(&row, true), vec![]);
    let mut column = VoxelMap::new(1, 5).unwrap();
    column.modify_density(0, 2, 0.0f32.to_bits());
    assert_eq!(extract_contour(&column, true), vec![]);
    let one = VoxelMap::new(1, 1).unwrap();
    assert_eq!(extract_contour(&one, true), vec![]);
}

#[test]
fn checkerboard_gives_two_segments_a_cell() {
    let mut map = VoxelMap::new(3, 3).unwrap();
    for y in 0..3 {
        for x in 0..3 {
            if (x + y) % 2 == 1 {
                map.modify_density(x, y, 0.0f32.to_bits());
            }
        }
    }
    let out = extract_contour(&map, false);
    assert_eq!(
        lines(&out),
        vec![
            (0, 0, seg(A, D)),
            (0, 0, seg(B, C)),
            (1, 0, seg(A, B)),
            (1, 0, seg(C, D)),
            (0, 1, seg(A, B)),
            (0, 1, seg(C, D)),
            (1, 1, seg(A, D)),
            (1, 1, seg(B, C)),
        ]
    );
}

#[test]
fn extraction_leaves_the_field_alone() {
    let mut map = VoxelMap::new(4, 4).unwrap();
    map.modify_density(2, 2, 0.25f32.to_bits());
    let first = extract_contour(&map, true);
    let second = extract_contour(&map, true);
    assert_eq!(first, second);
    assert_eq!(f32::from_bits(map.get_density(2, 2)), 0.25);
}

#[test]
fn row_of_cells_reads_two_rows_of_samples() {
    let mut one = VoxelMap::new(4, 5).unwrap();
    let mut other = VoxelMap::new(4, 5).unwrap();
    for map in [&mut one, &mut other] {
        map.modify_density(1, 0, 0.0f32.to_bits());
        map.modify_density(2, 1, 0.2f32.to_bits());
    }
    other.modify_density(0, 2, 0.0f32.to_bits());
    other.modify_density(3, 4, 0.0f32.to_bits());
    let bottom = |map: &VoxelMap| -> Vec<Emission> {
        extract_contour(map, true)
            .into_iter()
            .filter(|e| match e {
                Emission::Marker(cell) => cell.y == 0,
                Emission::Line(cell, _) => cell.y == 0,
            })
            .collect()
    };
    assert_eq!(bottom(&one), bottom(&other));
    assert_ne!(extract_contour(&one, true), extract_contour(&other, true));
}
