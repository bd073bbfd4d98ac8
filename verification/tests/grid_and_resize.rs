use imghash::{resize, FilterType, HashError, SampleGrid, MAX_DIMENSION};

const FILTERS: [FilterType; 5] = [
    FilterType::Nearest,
    FilterType::Triangle,
    FilterType::CatmullRom,
    FilterType::Gaussian,
    FilterType::Lanczos3,
];

fn patterned(width: u32, height: u32) -> SampleGrid {
    let samples = (0..width * height).map(|i| ((i * 37 + i / width * 11) % 256) as u8).collect();
    SampleGrid::new(width, height, samples).unwrap()
}

#[test]
fn grid_keeps_size_and_samples() {
    let grid = SampleGrid::new(3, 2, vec![1, 2, 3, 4, 5, 6]).unwrap();
    assert_eq!(grid.width(), 3);
    assert_eq!(grid.height(), 2);
    assert_eq!(grid.samples(), &vec![1u8, 2, 3, 4, 5, 6]);
}

#[test]
fn grid_is_row_major() {
    let grid = SampleGrid::new(3, 2, vec![1, 2, 3, 4, 5, 6]).unwrap();
    assert_eq!(grid.sample(0, 0), Some(1));
    assert_eq!(grid.sample(2, 0), Some(3));
    assert_eq!(grid.sample(0, 1), Some(4));
    assert_eq!(grid.sample(2, 1), Some(6));
    assert_eq!(grid.sample(3, 0), None);
    assert_eq!(grid.sample(0, 2), None);
}

#[test]
fn grid_refuses_empty_and_ill_sized() {
    assert_eq!(SampleGrid::new(0, 2, vec![]).err(), Some(HashError::InvalidDimension));
    assert_eq!(SampleGrid::new(2, 0, vec![]).err(), Some(HashError::InvalidDimension));
    assert_eq!(SampleGrid::new(2, 2, vec![1, 2, 3]).err(), Some(HashError::InvalidDimension));
    assert_eq!(SampleGrid::new(2, 2, vec![1, 2, 3, 4, 5]).err(), Some(HashError::InvalidDimension));
    assert!(SampleGrid::new(2, 2, vec![1, 2, 3, 4]).is_ok());
}

#[test]
fn grid_clone_is_equal_in_content() {
    let grid = patterned(5, 4);
    let copy = grid.clone();
    assert_eq!(copy.width(), 5);
    assert_eq!(copy.height(), 4);
    assert_eq!(copy.samples(), grid.samples());
}

#[test]
fn resize_gives_exactly_the_target_size() {
    let grid = patterned(31, 17);
    for filter in FILTERS {
        for (w, h) in [(9, 8), (8, 9), (1, 1), (40, 3), (31, 18)] {
            let out = resize(&grid, w, h, filter).unwrap();
            assert_eq!(out.width(), w);
            assert_eq!(out.height(), h);
            assert_eq!(out.samples().len(), (w * h) as usize);
        }
    }
}

#[test]
fn resize_to_same_size_returns_the_grid() {
    let grid = patterned(9, 8);
    for filter in FILTERS {
        let out = resize(&grid, 9, 8, filter).unwrap();
        assert_eq!(out.width(), 9);
        assert_eq!(out.height(), 8);
        assert_eq!(out.samples(), grid.samples());
    }
}

#[test]
fn resize_refuses_empty_target() {
    let grid = patterned(4, 4);
    for filter in FILTERS {
        assert_eq!(resize(&grid, 0, 4, filter).err(), Some(HashError::InvalidDimension));
        assert_eq!(resize(&grid, 4, 0, filter).err(), Some(HashError::InvalidDimension));
        assert_eq!(resize(&grid, 0, 0, filter).err(), Some(HashError::InvalidDimension));
    }
}

#[test]
fn resize_refuses_sides_beyond_what_the_kernels_carry() {
    assert_eq!(MAX_DIMENSION, 1 << 21);
    let grid = patterned(4, 4);
    assert_eq!(
        resize(&grid, MAX_DIMENSION + 1, 1, FilterType::Nearest).err(),
        Some(HashError::InvalidDimension)
    );
    assert_eq!(
        resize(&grid, 1, MAX_DIMENSION + 1, FilterType::Nearest).err(),
        Some(HashError::InvalidDimension)
    );
    let side = MAX_DIMENSION + 1;
    let wide = SampleGrid::new(side, 1, vec![7; side as usize]).unwrap();
    assert_eq!(resize(&wide, 8, 8, FilterType::Nearest).err(), Some(HashError::InvalidDimension));
    let same = resize(&wide, side, 1, FilterType::Nearest).unwrap();
    assert_eq!(same.samples(), wide.samples());
}

#[test]
fn resize_accepts_sides_far_beyond_the_usual() {
    let wide = SampleGrid::new(70_000, 1, vec![7; 70_000]).unwrap();
    for filter in FILTERS {
        let out = resize(&wide, 9, 8, filter).unwrap();
        assert_eq!(out.samples(), &vec![7u8; 72]);
    }
    let high = SampleGrid::new(1, 100_000, vec![200; 100_000]).unwrap();
    for filter in FILTERS {
        let out = resize(&high, 8, 9, filter).unwrap();
        assert_eq!(out.samples(), &vec![200u8; 72]);
    }
}

#[test]
fn resize_accepts_sides_at_the_maximum() {
    let side = MAX_DIMENSION;
    let ramp: Vec<u8> = (0..side).map(|i| (i >> 13) as u8).collect();
    let wide = SampleGrid::new(side, 1, ramp).unwrap();
    for filter in FILTERS {
        let out = resize(&wide, side - 1, 1, filter).unwrap();
        assert_eq!(out.width(), side - 1);
        assert_eq!(out.samples()[0], 0);
        assert_eq!(out.samples()[(side - 2) as usize], 255);
        let out = resize(&out, side, 1, filter).unwrap();
        assert_eq!(out.samples().len(), side as usize);
        assert_eq!(out.samples()[(side - 1) as usize], 255);
        let out = resize(&wide, 3, 2, filter).unwrap();
        assert_eq!(out.samples().len(), 6);
    }
    let small = SampleGrid::new(2, 1, vec![9, 9]).unwrap();
    let out = resize(&small, side, 1, FilterType::Nearest).unwrap();
    assert_eq!(out.samples(), &vec![9u8; side as usize]);
}

#[test]
fn resize_keeps_a_flat_grid_flat() {
    let grid = SampleGrid::new(20, 12, vec![173; 240]).unwrap();
    for filter in FILTERS {
        for (w, h) in [(9, 8), (3, 30), (40, 40), (1, 1)] {
            let out = resize(&grid, w, h, filter).unwrap();
            assert_eq!(out.samples(), &vec![173u8; (w * h) as usize]);
        }
    }
}

#[test]
fn nearest_picks_one_source_sample_per_target_cell() {
    let samples = (0..4u8).flat_map(|y| (0..4u8).map(move |x| 10 * y + x)).collect();
    let grid = SampleGrid::new(4, 4, samples).unwrap();
    let out = resize(&grid, 2, 2, FilterType::Nearest).unwrap();
    assert_eq!(out.samples(), &vec![11u8, 13, 31, 33]);
}

#[test]
fn resize_filters_rows_before_columns() {
    let samples = (0..64u32).map(|i| ((i * 97 + (i / 8) * 31 + i * i * 7) % 251) as u8).collect();
    let grid = SampleGrid::new(8, 8, samples).unwrap();
    let f = FilterType::Lanczos3;
    let rows_first = resize(&resize(&grid, 3, 8, f).unwrap(), 3, 3, f).unwrap();
    let columns_first = resize(&resize(&grid, 8, 3, f).unwrap(), 3, 3, f).unwrap();
    let at_once = resize(&grid, 3, 3, f).unwrap();
    assert_ne!(rows_first.samples(), columns_first.samples());
    assert_eq!(at_once.samples(), rows_first.samples());
}

#[test]
fn triangle_averages_neighbours_when_halving() {
    let grid = SampleGrid::new(4, 1, vec![0, 100, 100, 200]).unwrap();
    let out = resize(&grid, 2, 1, FilterType::Triangle).unwrap();
    assert_eq!(out.width(), 2);
    let left = out.samples()[0];
    let right = out.samples()[1];
    assert!(left > 0 && left < 100);
    assert!(right > 100 && right < 200);
    assert_eq!(left as u32 + right as u32, 200);
}

#[test]
fn resize_clamps_to_the_sample_range() {
    let mut samples = vec![0u8; 64];
    for i in 32..64 {
        samples[i] = 255;
    }
    let grid = SampleGrid::new(64, 1, samples).unwrap();
    for filter in FILTERS {
        let out = resize(&grid, 16, 1, filter).unwrap();
        assert_eq!(out.samples()[0], 0);
        assert_eq!(out.samples()[15], 255);
    }
}
