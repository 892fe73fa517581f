use consistent_hash_math::double_hash_demo::{
    choose_server_pair, double_hash_demo_layout, double_hash_layout, reoriented_server_pair,
};
use consistent_hash_math::k_hash_pdf_demo::KHashPdfDemo;
use consistent_hash_math::kth_hash_demo::{kth_hash_demo_layout, kth_hash_layout};
use consistent_hash_math::packed_hash_demo::{packed_hash_demo_layout, packed_hash_layout};
use consistent_hash_math::single_hash_demo::{single_hash_demo_layout, single_hash_layout};
use consistent_hash_math::single_hash_pdf_demo::SingleHashPdfDemo;
use consistent_hash_math::{
    DoubleHashDemoOpts, KthHashDemoOpts, PackedHashDemoOpts, SingleHashDemoOpts,
};

fn is_sorted(v: &[u32]) -> bool {
    v.windows(2).all(|w| w[0] <= w[1])
}

#[test]
fn single_hash_options_need_two_hashes() {
    let o = SingleHashDemoOpts { dark_mode: true, reorient: false, total_hashes: 0 };
    assert_eq!(o.normalized(), SingleHashDemoOpts { dark_mode: true, reorient: false, total_hashes: 2 });
    let o = SingleHashDemoOpts { dark_mode: false, reorient: true, total_hashes: 7 };
    assert_eq!(o.normalized(), o);
}

#[test]
fn single_hash_layout_picks_an_arc() {
    let sorted = vec![10, 20, 40];
    let l = single_hash_layout(false, &sorted, 5);
    assert_eq!(l.positions, vec![10, 20, 40]);
    assert_eq!(l.server_index, 1);
    assert_eq!(l.server_arc, 20);
    let r = single_hash_layout(true, &sorted, 5);
    assert_eq!(r.positions, vec![0, 10, 30]);
    assert_eq!(r.server_index, 0);
    assert_eq!(r.server_arc, 10);
}

#[test]
fn single_hash_demo_draws() {
    for reorient in [false, true] {
        let o = SingleHashDemoOpts { dark_mode: false, reorient, total_hashes: 1 };
        let l = single_hash_demo_layout(o).unwrap();
        assert_eq!(l.positions.len(), 2);
        assert!(is_sorted(&l.positions));
        assert_eq!(l.server_index, 0);
        assert_eq!(l.server_arc, l.positions[1] - l.positions[0]);
        if reorient {
            assert_eq!(l.positions[0], 0);
        }
        let o = SingleHashDemoOpts { dark_mode: false, reorient, total_hashes: 50 };
        let l = single_hash_demo_layout(o).unwrap();
        assert_eq!(l.positions.len(), 50);
        assert!(l.server_index + 1 < 50);
    }
}

#[test]
fn double_hash_server_pairs() {
    assert_eq!(choose_server_pair(3, 5, 4), Some((1, 3)));
    assert_eq!(choose_server_pair(5, 3, 4), Some((1, 3)));
    assert_eq!(choose_server_pair(1, 5, 4), None);
    assert_eq!(reoriented_server_pair(7, 5), (0, 4));
    assert_eq!(reoriented_server_pair(0, 2), (0, 1));
}

#[test]
fn double_hash_layout_adds_two_arcs() {
    let l = double_hash_layout(&vec![10, 20, 40, 80], (1, 3));
    assert_eq!(l.positions, vec![0, 10, 30, 70, u32::MAX]);
    assert_eq!(l.arcs, (20, u32::MAX - 70));
    assert_eq!(l.share, u32::MAX - 50);
}

#[test]
fn double_hash_demo_draws() {
    for reorient in [false, true] {
        let o = DoubleHashDemoOpts { dark_mode: false, reorient, total_hashes: 0 };
        assert_eq!(o.normalized().total_hashes, 2);
        let l = double_hash_demo_layout(o).unwrap();
        assert_eq!(l.positions.len(), 3);
        assert_eq!(l.servers, (0, 1));
        assert_eq!(l.share as u64, l.arcs.0 as u64 + l.arcs.1 as u64);
        let o = DoubleHashDemoOpts { dark_mode: false, reorient, total_hashes: 30 };
        let l = double_hash_demo_layout(o).unwrap();
        assert_eq!(l.positions.len(), 31);
        assert_eq!(l.positions[0], 0);
        assert_eq!(l.positions[30], u32::MAX);
        assert!(is_sorted(&l.positions));
        assert!(l.servers.0 < l.servers.1 && l.servers.1 < 30);
        if reorient {
            assert_eq!(l.servers.0, 0);
        }
    }
}

#[test]
fn packed_hash_options() {
    let o = PackedHashDemoOpts { dark_mode: false, total_hashes: 1, summed_hashes: 5 };
    assert_eq!(o.normalized(), PackedHashDemoOpts { dark_mode: false, total_hashes: 2, summed_hashes: 1 });
    let o = PackedHashDemoOpts { dark_mode: true, total_hashes: 10, summed_hashes: 3 };
    assert_eq!(o.normalized(), o);
}

#[test]
fn packed_share_is_the_first_arcs() {
    let l = packed_hash_layout(&vec![10, 20, 40], 2);
    assert_eq!(l.positions, vec![0, 10, 30, u32::MAX]);
    assert_eq!(l.share, 30);
    let all = packed_hash_layout(&vec![10, 20, 40], 3);
    assert_eq!(all.share, u32::MAX);
    let o = PackedHashDemoOpts { dark_mode: false, total_hashes: 40, summed_hashes: 7 };
    let l = packed_hash_demo_layout(o).unwrap();
    let arcs: u64 = (0..7).map(|i| (l.positions[i + 1] - l.positions[i]) as u64).sum();
    assert_eq!(l.share as u64, arcs);
}

#[test]
fn kth_hash_options() {
    let o = KthHashDemoOpts { dark_mode: false, total_hashes: 0, summed_hashes: 3 };
    assert_eq!(o.normalized(), KthHashDemoOpts { dark_mode: false, total_hashes: 1, summed_hashes: 1 });
    let o = KthHashDemoOpts { dark_mode: false, total_hashes: 8, summed_hashes: 8 };
    assert_eq!(o.normalized(), o);
}

#[test]
fn kth_hash_target_is_sum_of_segments() {
    let l = kth_hash_layout(&vec![10, 20, 40], 2);
    assert_eq!(l.target, 30);
    let l = kth_hash_layout(&vec![10, 20, 40], 3);
    assert_eq!(l.target, u32::MAX);
    let o = KthHashDemoOpts { dark_mode: true, total_hashes: 25, summed_hashes: 9 };
    let l = kth_hash_demo_layout(o).unwrap();
    let arcs: u64 = (0..9).map(|i| (l.positions[i + 1] - l.positions[i]) as u64).sum();
    assert_eq!(l.target as u64, arcs);
    assert_eq!(l.summed, 9);
}

#[test]
fn k_hash_pdf_options() {
    let o = KHashPdfDemo {
        dark_mode: false,
        total_hashes: 1,
        summed_hashes: 0,
        histogram_bins: 6,
        sample_count: 10,
        title: "t".to_string(),
        run_simulation: true,
        show_simulated_mean: false,
        show_simulated_std_dev: true,
        show_calculated_mean: false,
        show_calculated_std_dev: true,
    }
    .normalized();
    assert_eq!(o.histogram_bins, 64);
    assert_eq!(o.sample_count, 1024);
    assert_eq!(o.total_hashes, 2);
    assert_eq!(o.summed_hashes, 1);
    assert_eq!(o.title, "t");
    let o = KHashPdfDemo {
        dark_mode: false,
        total_hashes: 20,
        summed_hashes: 30,
        histogram_bins: 0,
        sample_count: 0,
        title: String::new(),
        run_simulation: false,
        show_simulated_mean: false,
        show_simulated_std_dev: false,
        show_calculated_mean: false,
        show_calculated_std_dev: false,
    }
    .normalized();
    assert_eq!((o.histogram_bins, o.sample_count, o.total_hashes, o.summed_hashes), (1, 1, 20, 20));
}

#[test]
fn single_hash_pdf_options() {
    let o = SingleHashPdfDemo {
        dark_mode: true,
        total_hashes: 0,
        sample_count: 3,
        histogram_bins: 5,
        title: "pdf".to_string(),
        actual_pdf: true,
        run_simulation: false,
    }
    .normalized();
    assert_eq!((o.histogram_bins, o.sample_count, o.total_hashes), (32, 8, 2));
    assert_eq!(o.ring_size(), 4);
    let big = SingleHashPdfDemo { total_hashes: 30, ..o };
    assert_eq!(big.ring_size(), 1 << 30);
}
