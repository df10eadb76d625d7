use raytracer::partition::{partition_rows, RowSlice};

fn rows(slices: &[RowSlice]) -> Vec<(u32, u32)> {
    slices.iter().map(|s| (s.begin, s.end)).collect()
}

fn covers_once(height: u32, slices: &[RowSlice]) -> bool {
    let mut seen = vec![0u32; height as usize];
    for s in slices {
        if s.begin >= s.end || s.end > height {
            return false;
        }
        for r in s.begin..s.end {
            seen[r as usize] += 1;
        }
    }
    seen.iter().all(|&c| c == 1)
}

#[test]
fn even_split_has_no_tail() {
    let r = partition_rows(8, 4);
    assert_eq!(rows(&r), vec![(0, 2), (2, 4), (4, 6), (6, 8)]);
}

#[test]
fn remainder_rows_form_a_final_slice() {
    let r = partition_rows(10, 4);
    assert_eq!(rows(&r), vec![(0, 2), (2, 4), (4, 6), (6, 8), (8, 10)]);
}

#[test]
fn fewer_rows_than_slices_give_one_slice() {
    let r = partition_rows(3, 4);
    assert_eq!(rows(&r), vec![(0, 3)]);
}

#[test]
fn empty_image_has_no_slices() {
    assert!(partition_rows(0, 4).is_empty());
}

#[test]
fn single_slice_covers_everything() {
    assert_eq!(rows(&partition_rows(768, 1)), vec![(0, 768)]);
}

#[test]
fn every_row_covered_exactly_once() {
    for height in 0..60u32 {
        for slices in 1..9u32 {
            let r = partition_rows(height, slices);
            assert!(covers_once(height, &r), "height {} slices {}", height, slices);
        }
    }
}

#[test]
fn large_image_partition() {
    let r = partition_rows(u32::MAX, 7);
    assert!(covers_once_counted(u32::MAX, &r));
    assert_eq!(r.len(), 8);
    assert_eq!(r[7].end, u32::MAX);
}

fn covers_once_counted(height: u32, slices: &[RowSlice]) -> bool {
    let mut next = 0u32;
    for s in slices {
        if s.begin != next || s.begin >= s.end {
            return false;
        }
        next = s.end;
    }
    next == height
}
