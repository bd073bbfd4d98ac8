use imghash::{HashAlg, HashError, SampleGrid};

fn bits_of(pattern: &str) -> Vec<bool> {
    pattern.chars().filter(|c| *c != ' ').map(|c| c == '1').collect()
}

fn grid(width: u32, height: u32, samples: &[u8]) -> SampleGrid {
    SampleGrid::new(width, height, samples.to_vec()).unwrap()
}

#[test]
fn mean_sets_samples_at_or_above_the_mean() {
    let g = grid(2, 2, &[10, 20, 30, 40]);
    assert_eq!(HashAlg::Mean.compute(&g, 2, 2), Ok(bits_of("0011")));
    let g = grid(3, 1, &[25, 25, 25]);
    assert_eq!(HashAlg::Mean.compute(&g, 3, 1), Ok(bits_of("111")));
}

#[test]
fn mean_is_not_rounded_before_comparing() {
    let g = grid(2, 2, &[1, 2, 2, 2]);
    assert_eq!(HashAlg::Mean.compute(&g, 2, 2), Ok(bits_of("0111")));
    let g = grid(4, 1, &[0, 0, 0, 1]);
    assert_eq!(HashAlg::Mean.compute(&g, 4, 1), Ok(bits_of("0001")));
}

#[test]
fn mean_handles_the_brightest_grid() {
    let g = grid(8, 8, &[255; 64]);
    assert_eq!(HashAlg::Mean.compute(&g, 8, 8), Ok(vec![true; 64]));
}

#[test]
fn gradient_compares_with_the_sample_to_the_right() {
    let g = grid(3, 2, &[1, 2, 2, 5, 4, 9]);
    assert_eq!(HashAlg::Gradient.compute(&g, 2, 2), Ok(bits_of("1001")));
}

#[test]
fn gradient_of_a_flat_grid_is_all_zero() {
    let g = grid(9, 8, &[77; 72]);
    assert_eq!(HashAlg::Gradient.compute(&g, 8, 8), Ok(vec![false; 64]));
}

#[test]
fn vert_gradient_compares_with_the_sample_below() {
    let g = grid(2, 3, &[1, 5, 2, 4, 2, 9]);
    assert_eq!(HashAlg::VertGradient.compute(&g, 2, 2), Ok(bits_of("1001")));
}

#[test]
fn vert_gradient_is_row_major() {
    let g = grid(3, 2, &[0, 9, 0, 1, 1, 1]);
    assert_eq!(HashAlg::VertGradient.compute(&g, 3, 1), Ok(bits_of("101")));
    let g = grid(1, 4, &[0, 1, 0, 1]);
    assert_eq!(HashAlg::VertGradient.compute(&g, 1, 3), Ok(bits_of("101")));
}

#[test]
fn double_gradient_is_gradient_then_vert_gradient() {
    let g = grid(3, 3, &[1, 2, 3, 4, 4, 4, 9, 8, 7]);
    assert_eq!(HashAlg::DoubleGradient.compute(&g, 2, 2), Ok(bits_of("1100 1111")));
}

#[test]
fn double_gradient_gives_two_bits_per_cell() {
    let g = grid(9, 9, &[0; 81]);
    assert_eq!(HashAlg::DoubleGradient.compute(&g, 8, 8), Ok(vec![false; 128]));
}

#[test]
fn blockhash_compares_block_means_with_their_mean() {
    let g = grid(4, 4, &[10, 10, 20, 20, 10, 10, 20, 20, 30, 30, 40, 40, 30, 30, 40, 40]);
    assert_eq!(HashAlg::Blockhash.compute(&g, 2, 2), Ok(bits_of("0011")));
}

#[test]
fn blockhash_averages_within_blocks() {
    let g = grid(4, 2, &[0, 100, 60, 60, 100, 0, 40, 40]);
    assert_eq!(HashAlg::Blockhash.compute(&g, 2, 1), Ok(bits_of("11")));
    let g = grid(4, 2, &[0, 100, 60, 60, 100, 1, 40, 40]);
    assert_eq!(HashAlg::Blockhash.compute(&g, 2, 1), Ok(bits_of("10")));
}

#[test]
fn blockhash_of_a_flat_grid_is_all_one() {
    let g = grid(8, 8, &[255; 64]);
    assert_eq!(HashAlg::Blockhash.compute(&g, 4, 4), Ok(vec![true; 16]));
}

#[test]
fn blockhash_with_one_sample_per_block_equals_mean() {
    let samples = [3u8, 200, 17, 90, 90, 4, 250, 0, 33, 120, 121, 119];
    let g = grid(4, 3, &samples);
    assert_eq!(HashAlg::Blockhash.compute(&g, 4, 3), HashAlg::Mean.compute(&g, 4, 3));
}

#[test]
fn algorithms_refuse_a_zero_hash_size() {
    let g = grid(2, 2, &[1, 2, 3, 4]);
    for alg in [
        HashAlg::Mean,
        HashAlg::Gradient,
        HashAlg::VertGradient,
        HashAlg::DoubleGradient,
        HashAlg::Blockhash,
    ] {
        assert_eq!(alg.compute(&g, 0, 2), Err(HashError::InvalidConfiguration));
        assert_eq!(alg.compute(&g, 2, 0), Err(HashError::InvalidConfiguration));
    }
}

#[test]
fn algorithms_refuse_a_grid_of_the_wrong_shape() {
    let g = grid(3, 3, &[0; 9]);
    assert_eq!(HashAlg::Mean.compute(&g, 2, 3), Err(HashError::InvalidConfiguration));
    assert_eq!(HashAlg::Gradient.compute(&g, 3, 3), Err(HashError::InvalidConfiguration));
    assert_eq!(HashAlg::Gradient.compute(&g, 2, 2), Err(HashError::InvalidConfiguration));
    assert_eq!(HashAlg::VertGradient.compute(&g, 2, 2), Err(HashError::InvalidConfiguration));
    assert_eq!(HashAlg::DoubleGradient.compute(&g, 2, 3), Err(HashError::InvalidConfiguration));
    assert!(HashAlg::Mean.compute(&g, 3, 3).is_ok());
    assert!(HashAlg::Gradient.compute(&g, 2, 3).is_ok());
    assert!(HashAlg::VertGradient.compute(&g, 3, 2).is_ok());
    assert!(HashAlg::DoubleGradient.compute(&g, 2, 2).is_ok());
}

#[test]
fn blockhash_refuses_a_partition_with_empty_or_unequal_blocks() {
    let g = grid(3, 3, &[0; 9]);
    assert_eq!(HashAlg::Blockhash.compute(&g, 4, 1), Err(HashError::InvalidConfiguration));
    assert_eq!(HashAlg::Blockhash.compute(&g, 1, 4), Err(HashError::InvalidConfiguration));
    assert_eq!(HashAlg::Blockhash.compute(&g, 2, 3), Err(HashError::InvalidConfiguration));
    assert!(HashAlg::Blockhash.compute(&g, 3, 3).is_ok());
    assert!(HashAlg::Blockhash.compute(&g, 1, 1).is_ok());
    assert!(HashAlg::Blockhash.compute(&g, 3, 1).is_ok());
}
