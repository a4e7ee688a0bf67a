use resampler::coefficients::compute_coefficients;
use resampler::filters::FilterType;
use resampler::fixed::FIXED_ONE;

const ALL_FILTERS: [FilterType; 6] = [
    FilterType::BoxFilter,
    FilterType::Bilinear,
    FilterType::Hamming,
    FilterType::CatmullRom,
    FilterType::Mitchell,
    FilterType::Lanczos3,
];

#[test]
fn weights_sum_to_one_for_every_coordinate() {
    for filter in ALL_FILTERS {
        for (src_len, dst_len) in [(7usize, 3usize), (3, 7), (100, 7), (5, 5), (1, 9)] {
            let c = compute_coefficients(src_len, dst_len, filter);
            assert_eq!(c.weights.len(), dst_len);
            for d in 0..dst_len {
                let sum: i64 = c.weights[d].iter().sum();
                assert_eq!(
                    sum, FIXED_ONE,
                    "filter {:?}, {}->{}, coordinate {}",
                    filter, src_len, dst_len, d
                );
            }
        }
    }
}

#[test]
fn bounds_are_clipped_to_the_source() {
    for filter in ALL_FILTERS {
        for (src_len, dst_len) in [(7usize, 3usize), (3, 7), (100, 7), (2, 1000)] {
            let c = compute_coefficients(src_len, dst_len, filter);
            assert_eq!(c.bounds.len(), dst_len);
            for d in 0..dst_len {
                let b = &c.bounds[d];
                assert!(b.count >= 1);
                assert!(
                    b.start + b.count <= src_len,
                    "filter {:?}, {}->{}, coordinate {}: {}+{}",
                    filter,
                    src_len,
                    dst_len,
                    d,
                    b.start,
                    b.count
                );
                assert_eq!(c.weights[d].len(), b.count);
            }
        }
    }
}

#[test]
fn box_halving_weights_are_exact_halves() {
    let c = compute_coefficients(4, 2, FilterType::BoxFilter);
    assert_eq!(c.bounds[0].start, 0);
    assert_eq!(c.weights[0], vec![FIXED_ONE / 2, FIXED_ONE / 2, 0]);
    assert_eq!(c.weights[1], vec![0, FIXED_ONE / 2, FIXED_ONE / 2]);
}

#[test]
fn identity_coefficients_put_unit_weight_at_own_index() {
    let c = compute_coefficients(5, 5, FilterType::Bilinear);
    for d in 0..5 {
        let b = &c.bounds[d];
        let ws = &c.weights[d];
        for (i, &w) in ws.iter().enumerate() {
            if b.start + i == d {
                assert_eq!(w, FIXED_ONE);
            } else {
                assert_eq!(w, 0);
            }
        }
    }
}
