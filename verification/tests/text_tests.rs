use consistent_hash_math::kth_hash_demo::{kth_hash_label_prefix, segments_caption};
use consistent_hash_math::messages::{route_message, DemoRequest};
use consistent_hash_math::ordinal;
use consistent_hash_math::text::push_decimal;

#[test]
fn ordinal_suffixes() {
    let cases = [
        (0, "0th"),
        (1, "1st"),
        (2, "2nd"),
        (3, "3rd"),
        (4, "4th"),
        (10, "10th"),
        (11, "11th"),
        (12, "12th"),
        (13, "13th"),
        (14, "14th"),
        (21, "21st"),
        (22, "22nd"),
        (23, "23rd"),
        (101, "101st"),
        (111, "111th"),
        (112, "112th"),
        (113, "113th"),
        (1002, "1002nd"),
    ];
    for (n, expected) in cases {
        assert_eq!(ordinal(n), expected);
    }
}

#[test]
fn decimal_of_large_numbers() {
    let mut s = String::from("x=");
    push_decimal(&mut s, 4294967295);
    assert_eq!(s, "x=4294967295");
    let mut z = String::new();
    push_decimal(&mut z, 0);
    assert_eq!(z, "0");
}

#[test]
fn kth_hash_labels() {
    assert_eq!(kth_hash_label_prefix(5, 5), "All hashes = ");
    assert_eq!(kth_hash_label_prefix(0, 5), "1st hash = ");
    assert_eq!(kth_hash_label_prefix(2, 10), "3rd hash = ");
    assert_eq!(kth_hash_label_prefix(10, 20), "11th hash = ");
    assert_eq!(segments_caption(1), "sum of 1 segment");
    assert_eq!(segments_caption(0), "sum of 0 segments");
    assert_eq!(segments_caption(12), "sum of 12 segments");
}

#[test]
fn message_routes() {
    let cases = [
        ("single-hash-demo", DemoRequest::SingleHash),
        ("double-hash-demo-1", DemoRequest::DoubleHash),
        ("double-hash-demo-2", DemoRequest::DoubleHash),
        ("single-hash-demo-reorient", DemoRequest::SingleHashReoriented),
        ("uniform-distribution-demo", DemoRequest::UniformDistribution),
        ("single-hash-pdf-demo", DemoRequest::SingleHashPdf),
        ("single-hash-pdf-demo-hist", DemoRequest::SingleHashPdf),
        ("single-hash-simulation-hist", DemoRequest::SingleHashPdf),
        ("marble-demo", DemoRequest::Marbles),
        ("packed-hash-demo-1", DemoRequest::PackedHash),
        ("packed-hash-demo-2", DemoRequest::PackedHash),
        ("kth-hash-demo", DemoRequest::KthHash),
        ("bernoulli-demo", DemoRequest::Bernoulli),
        ("k-hash-pdf", DemoRequest::KHashPdf),
        ("k-hash-pdf-comparison", DemoRequest::KHashPdf),
        ("double-hash-demo-3", DemoRequest::Unknown),
        ("", DemoRequest::Unknown),
    ];
    for (id, expected) in cases {
        assert_eq!(route_message(&id.to_string()), expected, "id {}", id);
    }
}
