use consistent_hash_math::random::{random_hashes, words_from_bytes};
use consistent_hash_math::ring::{arc_length, close_ring, rotate_to_origin, sort_hashes};
use consistent_hash_math::sampling::{
    generate_sorted_random_ints, hash_count_for_exponent, power_of_two,
};
use consistent_hash_math::segments::{
    arcs_between, segments_from_window, sum_k_segments, KSumSampler, SegmentGenerator,
};
use consistent_hash_math::generate_random_ints;

#[test]
fn words_are_little_endian() {
    let bytes = vec![1, 0, 0, 0, 0, 1, 0, 0, 255, 255, 255, 255, 0x78, 0x56, 0x34, 0x12, 9];
    assert_eq!(words_from_bytes(&bytes), vec![1, 256, u32::MAX, 0x1234_5678]);
    assert_eq!(words_from_bytes(&vec![1, 2, 3]), Vec::<u32>::new());
}

#[test]
fn random_vectors_have_the_asked_length() {
    assert_eq!(generate_random_ints(0).unwrap().len(), 0);
    assert_eq!(generate_random_ints(1000).unwrap().len(), 1000);
    assert_eq!(random_hashes(17).unwrap().len(), 17);
    assert_eq!(generate_sorted_random_ints(0).unwrap(), Vec::<u32>::new());
    let sorted = generate_sorted_random_ints(500).unwrap();
    assert_eq!(sorted.len(), 500);
    assert!(sorted.windows(2).all(|w| w[0] <= w[1]));
}

#[test]
fn sorting_keeps_every_hash() {
    assert_eq!(sort_hashes(vec![5, 1, 4, 1, 3]), vec![1, 1, 3, 4, 5]);
    assert_eq!(sort_hashes(vec![]), Vec::<u32>::new());
}

#[test]
fn ring_is_pinned_at_zero_and_closed_at_the_end() {
    let sorted = vec![5, 10, 20];
    assert_eq!(rotate_to_origin(&sorted), vec![0, 5, 15]);
    let ring = close_ring(&sorted);
    assert_eq!(ring, vec![0, 5, 15, u32::MAX]);
    assert_eq!(arc_length(&ring, 1), 10);
    assert_eq!(arcs_between(&ring), vec![5, 10, u32::MAX - 15]);
}

#[test]
fn arcs_of_a_random_ring_cover_it() {
    let sorted = sort_hashes(random_hashes(100).unwrap());
    let ring = close_ring(&sorted);
    let arcs = arcs_between(&ring);
    assert_eq!(arcs.len(), 100);
    assert_eq!(arcs.iter().map(|&a| a as u64).sum::<u64>(), u32::MAX as u64);
}

#[test]
fn window_cuts_the_ring_with_a_point_at_zero() {
    assert_eq!(segments_from_window(&vec![100, 50]), vec![50, 50, u32::MAX - 100]);
    assert_eq!(segments_from_window(&vec![]), vec![u32::MAX]);
    assert_eq!(segments_from_window(&vec![0]), vec![0, u32::MAX]);
}

#[test]
fn groups_of_k_segments() {
    assert_eq!(sum_k_segments(&vec![1, 2, 3, 4, 5], 2), vec![3, 7]);
    assert_eq!(sum_k_segments(&vec![1, 2, 3, 4, 5], 5), vec![15]);
    assert_eq!(sum_k_segments(&vec![1, 2, 3, 4, 5], 6), Vec::<u32>::new());
    assert_eq!(sum_k_segments(&vec![1, 2, 3], 1), vec![1, 2, 3]);
}

#[test]
fn generator_rings_cover_the_ring() {
    for n in [0usize, 1, 2, 3, 20, 1000] {
        let mut g = SegmentGenerator::new(n);
        let expected = if n <= 1 { 2 } else { n };
        for _ in 0..5 {
            let segments = g.next().unwrap();
            assert_eq!(segments.len(), expected);
            let total: u64 = segments.iter().map(|&s| s as u64).sum();
            assert_eq!(total, u32::MAX as u64);
            // a group of all segments is the whole ring
            assert_eq!(sum_k_segments(&segments, expected), vec![u32::MAX]);
        }
    }
}

#[test]
fn mean_of_k_segments_is_near_k_over_n() {
    let (n, k) = (20usize, 5usize);
    let mut g = SegmentGenerator::new(n);
    let mut total = 0f64;
    let mut count = 0usize;
    for _ in 0..2000 {
        let segments = g.next().unwrap();
        for s in sum_k_segments(&segments, k) {
            total += s as f64 / u32::MAX as f64;
            count += 1;
        }
    }
    let mean = total / count as f64;
    assert!((mean - k as f64 / n as f64).abs() < 0.02, "mean {}", mean);
}

#[test]
fn powers_of_two() {
    assert_eq!(power_of_two(0), 1);
    assert_eq!(power_of_two(10), 1024);
    assert_eq!(power_of_two(31), 1 << 31);
    assert_eq!(hash_count_for_exponent(0), 1);
    assert_eq!(hash_count_for_exponent(12), 4096);
}

#[test]
fn sampler_hands_out_group_lengths() {
    // one group per ring: every sample is the whole ring
    let mut whole = KSumSampler::new(4, 4);
    for _ in 0..10 {
        assert_eq!(whole.next_sum().unwrap(), u32::MAX);
    }
    // single segments of rings of 50 hashes average 1 / 50
    let mut single = KSumSampler::new(50, 1);
    let mean = (0..20_000)
        .map(|_| single.next_sum().unwrap() as f64 / u32::MAX as f64)
        .sum::<f64>()
        / 20_000.0;
    assert!((mean - 0.02).abs() < 0.002, "mean {}", mean);
    // groups of 3 out of 10 average 3 / 10
    let mut groups = KSumSampler::new(10, 3);
    let mean = (0..20_000)
        .map(|_| groups.next_sum().unwrap() as f64 / u32::MAX as f64)
        .sum::<f64>()
        / 20_000.0;
    assert!((mean - 0.3).abs() < 0.01, "mean {}", mean);
}

#[test]
fn rotation_keeps_arc_lengths() {
    let sorted = vec![100, 250, 1000, 4000];
    let ring = close_ring(&sorted);
    let arcs = arcs_between(&ring);
    assert_eq!(&arcs[..3], &[150, 750, 3000]);
    assert_eq!(arcs[3], u32::MAX - (4000 - 100));
}
