use num_rust::dimension::Dimension;
use num_rust::matrices::indices::{ColumnIndex, MatrixIndex, RowIndex};
use num_rust::matrices::{Get, GetMut, Matrix, MatrixContent, MatrixIter, MisAlignment};

fn content(width: isize, height: isize, values: Vec<i64>) -> MatrixContent<i64> {
    MatrixContent::new(Dimension::new(width, height), values)
}

fn collect<'a, T: Clone>(mut it: MatrixIter<'a, T>) -> Vec<T> {
    let mut out = Vec::new();
    while let Some(x) = it.next() {
        out.push(x.clone());
    }
    out
}

fn all_entries(m: &MatrixContent<i64>) -> Vec<i64> {
    let mut out = Vec::new();
    let mut it = m.entries();
    while let Some(x) = it.next() {
        out.push(*x);
    }
    out
}

fn scenario_rows() -> Vec<Vec<i64>> {
    vec![
        vec![0, 2, 3, 81],
        vec![6, 7, 8, 99],
        vec![5, 7, 2, 5],
        vec![6, 7, 17, 6],
    ]
}

fn scenario_doubled() -> Vec<i64> {
    vec![0, 4, 6, 162, 12, 14, 16, 198, 10, 14, 4, 10, 12, 14, 34, 12]
}

#[test]
fn dimension_reports_width_height_and_len() {
    let d = Dimension::new(4, 3);
    assert_eq!(d.width(), 4);
    assert_eq!(d.height(), 3);
    assert_eq!(d.len(), 12);
    assert_eq!(Dimension::new(0, 5).len(), 0);
}

#[test]
fn flat_construction_round_trips_in_row_major_order() {
    let values: Vec<i64> = (1..=6).collect();
    let m = content(3, 2, values.clone());
    assert_eq!(m.width(), 3);
    assert_eq!(m.height(), 2);
    let mut read = Vec::new();
    for row in 0..2 {
        for col in 0..3 {
            read.push(*m.index((row, col)));
        }
    }
    assert_eq!(read, values);
    assert_eq!(all_entries(&m), values);
}

#[test]
fn flat_index_counts_back_from_the_end() {
    let m = content(3, 2, vec![1, 2, 3, 4, 5, 6]);
    assert_eq!(*m.index_flat(0), 1);
    assert_eq!(*m.index_flat(4), 5);
    assert_eq!(*m.index_flat(-1), 6);
    assert_eq!(*m.index_flat(-6), 1);
}

#[test]
fn nested_rows_build_a_matrix() {
    let m = MatrixContent::try_from(vec![vec![1i64, 2, 3], vec![4, 5, 6]]).unwrap();
    assert_eq!(m.width(), 3);
    assert_eq!(m.height(), 2);
    assert_eq!(*m.index((1, 0)), 4);
    assert_eq!(all_entries(&m), vec![1, 2, 3, 4, 5, 6]);
}

#[test]
fn nested_rows_of_unequal_length_are_misaligned() {
    let r = MatrixContent::try_from(vec![vec![1i64, 2, 3], vec![4, 5]]);
    assert!(matches!(r, Err(MisAlignment)));
    let r = MatrixContent::try_from(vec![vec![1i64], vec![4, 5]]);
    assert!(matches!(r, Err(MisAlignment)));
    let r = Matrix::try_from(vec![vec!['a', 'b'], vec!['c'], vec!['d', 'e']]);
    assert!(matches!(r, Err(MisAlignment)));
}

#[test]
fn negative_coordinates_reflect() {
    let m = content(3, 2, vec![1, 2, 3, 4, 5, 6]);
    for k in 1..=2isize {
        for col in 0..3isize {
            assert_eq!(m.index((-k, col)), m.index((2 - k, col)));
        }
    }
    for k in 1..=3isize {
        for row in 0..2isize {
            assert_eq!(m.index((row, -k)), m.index((row, 3 - k)));
        }
    }
    assert_eq!(*m.index((-1, -1)), 6);
    assert_eq!(*m.index((-2, -3)), 1);
}

#[test]
fn row_and_column_iteration_match_coordinate_access() {
    let m = content(3, 2, vec![1, 2, 3, 4, 5, 6]);
    let row = m.get(RowIndex::new(1)).unwrap();
    let items = collect(row.iter());
    assert_eq!(items.len(), 3);
    assert_eq!(items, vec![4, 5, 6]);
    let col = m.get(ColumnIndex::from(2)).unwrap();
    let items = collect(col.iter());
    assert_eq!(items.len(), 2);
    assert_eq!(items, vec![3, 6]);
    for r in 0..2isize {
        let row = m.get(RowIndex::from(r)).unwrap();
        let items = collect(row.into_iter());
        for c in 0..3isize {
            assert_eq!(items[c as usize], *m.index((r, c)));
        }
    }
}

#[test]
fn rows_and_columns_walk_every_line_in_order() {
    let m = content(3, 2, vec![1, 2, 3, 4, 5, 6]);
    let mut rows = m.rows();
    let mut seen = Vec::new();
    while let Some(row) = rows.next() {
        seen.push(collect(row.iter()));
    }
    assert_eq!(seen, vec![vec![1, 2, 3], vec![4, 5, 6]]);
    let mut cols = m.columns();
    let mut seen = Vec::new();
    while let Some(col) = cols.next() {
        seen.push(collect(col.iter()));
    }
    assert_eq!(seen, vec![vec![1, 4], vec![2, 5], vec![3, 6]]);
}

#[test]
fn empty_lines_yield_nothing() {
    let wide = content(0, 2, vec![]);
    let row = wide.get_row(RowIndex::from(0)).unwrap();
    assert!(collect(row.iter()).is_empty());
    let flat = content(3, 0, vec![]);
    let col = flat.get_column(ColumnIndex::from(1)).unwrap();
    assert!(collect(col.iter()).is_empty());
    assert!(flat.get_row(RowIndex::from(0)).is_none());
}

#[test]
fn checked_retrieval_is_absent_out_of_range() {
    let m = content(3, 2, vec![1, 2, 3, 4, 5, 6]);
    assert!(m.get(RowIndex::from(2)).is_none());
    assert!(m.get(RowIndex::from(-3)).is_none());
    assert!(m.get(ColumnIndex::from(3)).is_none());
    assert!(m.get(ColumnIndex::from(-4)).is_none());
    assert!(m.get(MatrixIndex::new(2, 0)).is_none());
    assert!(m.get(MatrixIndex::new(0, -4)).is_none());
    assert_eq!(m.get(MatrixIndex::new(-1, -2)), Some(&5));
    let last = m.get(ColumnIndex::from(-3)).unwrap();
    assert_eq!(collect(last.iter()), vec![1, 4]);
}

#[test]
fn column_index_reflects_against_width() {
    let m = content(3, 2, vec![1, 2, 3, 4, 5, 6]);
    let col = m.get(ColumnIndex::from(-1)).unwrap();
    assert_eq!(collect(col.iter()), vec![3, 6]);
}

#[test]
fn views_index_along_their_line() {
    let m = content(3, 2, vec![1, 2, 3, 4, 5, 6]);
    let row = m.get_row(RowIndex::from(-1)).unwrap();
    assert_eq!(*row.index(0), 4);
    assert_eq!(*row.index(-1), 6);
    assert_eq!(*row.index_column(ColumnIndex::from(1)), 5);
    let col = m.get_column(ColumnIndex::from(1)).unwrap();
    assert_eq!(*col.index(-1), 5);
    assert_eq!(*col.index_row(RowIndex::from(0)), 2);
}

#[test]
fn mutable_access_changes_one_element() {
    let mut m = content(2, 2, vec![1, 2, 3, 4]);
    *m.index_mut((0, -1)) = 20;
    if let Some(x) = m.get_mut(MatrixIndex::new(-1, 0)) {
        *x = 30;
    }
    assert!(m.get_entry_mut(MatrixIndex::new(2, 0)).is_none());
    assert_eq!(all_entries(&m), vec![1, 20, 30, 4]);
}

#[test]
fn scalar_multiply_by_zero_zeroes_everything() {
    let m = content(2, 2, vec![1, -2, 3, 4]);
    let z = m.mul(0);
    assert_eq!(all_entries(&z), vec![0, 0, 0, 0]);
}

#[test]
fn scalar_multiply_twice_is_multiply_by_product() {
    let a = content(2, 2, vec![1, -2, 3, 4]).mul(3).mul(-5);
    let b = content(2, 2, vec![1, -2, 3, 4]).mul(-15);
    assert_eq!(all_entries(&a), all_entries(&b));
    assert_eq!(all_entries(&a), vec![-15, 30, -45, -60]);
    let mut c = content(2, 2, vec![1, -2, 3, 4]);
    c.mul_assign(2);
    assert_eq!(all_entries(&c), vec![2, -4, 6, 8]);
}

#[test]
fn elementwise_add_commutes() {
    let a = content(2, 2, vec![1, 2, 3, 4]);
    let b = content(2, 2, vec![10, -20, 30, 0]);
    assert_eq!(all_entries(&a.add(&b)), all_entries(&b.add(&a)));
    assert_eq!(all_entries(&a.add(&b)), vec![11, -18, 33, 4]);
}

#[test]
fn adding_a_matrix_to_itself_doubles_it() {
    let a = content(2, 3, vec![1, 2, 3, 4, 5, -6]);
    let twice = a.add(&a);
    let doubled = content(2, 3, vec![1, 2, 3, 4, 5, -6]).mul(2);
    assert_eq!(all_entries(&twice), all_entries(&doubled));
}

#[test]
fn scenario_four_by_four_double() {
    let m = Matrix::try_from(scenario_rows()).unwrap();
    let doubled = m.mul(2);
    assert_eq!(all_entries(&doubled.content), scenario_doubled());
    let undoubled = Matrix::try_from(scenario_rows()).unwrap();
    let sum = undoubled.add(&undoubled);
    assert_eq!(all_entries(&sum.content), scenario_doubled());
    let mut in_place = Matrix::try_from(scenario_rows()).unwrap();
    in_place.mul_assign(2);
    assert_eq!(all_entries(&in_place.content), scenario_doubled());
}

#[test]
fn scenario_last_row_and_last_column() {
    let numbers = Matrix::from_content(content(3, 3, vec![2, 3, 4, 5, 3, 6, 4, 1, 7]));
    let row = numbers.content.get(RowIndex::from(-1)).unwrap();
    assert_eq!(collect(row.iter()), vec![4, 1, 7]);
    let letters = Matrix::try_from(vec![
        vec!['a', 'b', 'c'],
        vec!['d', 'e', 'f'],
        vec!['g', 'h', 'i'],
    ])
    .unwrap();
    let col = letters.content.get(ColumnIndex::from(-1)).unwrap();
    assert_eq!(*col.index(0), 'c');
    assert_eq!(collect(col.iter()), vec!['c', 'f', 'i']);
}

#[test]
fn add_checked_rejects_mismatched_shapes() {
    let a = content(2, 3, vec![1, 2, 3, 4, 5, 6]);
    let b = content(3, 2, vec![1, 2, 3, 4, 5, 6]);
    assert!(a.add_checked(&b).is_none());
    let c = content(2, 2, vec![1, 2, 3, 4]);
    assert!(a.add_checked(&c).is_none());
    let same = a.add_checked(&a).unwrap();
    assert_eq!(all_entries(&same), vec![2, 4, 6, 8, 10, 12]);
    let ma = Matrix::from_content(content(1, 2, vec![1, 2]));
    let mb = Matrix::from_content(content(2, 1, vec![1, 2]));
    assert!(ma.add_checked(&mb).is_none());
    assert_eq!(all_entries(&ma.add_checked(&ma).unwrap().content), vec![2, 4]);
}

#[test]
fn matrix_wrapper_reports_its_shape_and_lines() {
    let m = Matrix::from_content(content(3, 2, vec![1, 2, 3, 4, 5, 6]));
    assert_eq!(m.width(), 3);
    assert_eq!(m.height(), 2);
    assert_eq!(m.content.dimension().len(), 6);
    let mut n = 0;
    let mut rows = m.rows();
    while rows.next().is_some() {
        n += 1;
    }
    assert_eq!(n, 2);
    let mut n = 0;
    let mut cols = m.columns();
    while cols.next().is_some() {
        n += 1;
    }
    assert_eq!(n, 3);
}

#[test]
fn mutable_walk_visits_every_element_once() {
    let mut m = content(3, 2, vec![1, 2, 3, 4, 5, 6]);
    let mut visits = 0;
    {
        let mut it = m.entries_mut();
        while let Some(x) = it.next() {
            *x *= 10;
            visits += 1;
        }
    }
    assert_eq!(visits, 6);
    assert_eq!(all_entries(&m), vec![10, 20, 30, 40, 50, 60]);
    let mut empty = content(0, 0, vec![]);
    assert!(empty.entries_mut().next().is_none());
}

#[test]
fn strided_mutable_walk_touches_one_column() {
    let mut m = content(3, 2, vec![1, 2, 3, 4, 5, 6]);
    {
        let mut it = num_rust::matrices::MatrixIterMut::new(1, 4, &mut m, 3);
        while let Some(x) = it.next() {
            *x = 0;
        }
    }
    assert_eq!(all_entries(&m), vec![1, 0, 3, 4, 0, 6]);
}

#[test]
fn matrix_derefs_to_its_content() {
    let mut m = Matrix::from_content(content(2, 2, vec![1, 2, 3, 4]));
    assert_eq!(*m.index((-1, 0)), 3);
    let row = m.get(RowIndex::from(0)).unwrap();
    assert_eq!(collect(row.iter()), vec![1, 2]);
    *m.index_mut((1, 1)) = 40;
    assert_eq!(all_entries(&m), vec![1, 2, 3, 40]);
}
