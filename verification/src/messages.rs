//! Which demo a message from the page asks for.

use vstd::prelude::*;

verus! {

/// The demo that a message asks for.
#[derive(Debug, Clone, Copy, PartialEq, Eq, Structural)]
pub enum DemoRequest {
    SingleHash,
    /// The single-hash demo with its `reorient` option set.
    SingleHashReoriented,
    DoubleHash,
    UniformDistribution,
    SingleHashPdf,
    Marbles,
    PackedHash,
    KthHash,
    Bernoulli,
    KHashPdf,
    /// No demo has this id.
    Unknown,
}

/// The demo that the element id `id` asks for.
pub open spec fn route_of(id: Seq<char>) -> DemoRequest {
    if id == "single-hash-demo"@ {
        DemoRequest::SingleHash
    } else if id == "double-hash-demo-1"@ || id == "double-hash-demo-2"@ {
        DemoRequest::DoubleHash
    } else if id == "single-hash-demo-reorient"@ {
        DemoRequest::SingleHashReoriented
    } else if id == "uniform-distribution-demo"@ {
        DemoRequest::UniformDistribution
    } else if id == "single-hash-pdf-demo"@ || id == "single-hash-pdf-demo-hist"@ || id
        == "single-hash-simulation-hist"@ {
        DemoRequest::SingleHashPdf
    } else if id == "marble-demo"@ {
        DemoRequest::Marbles
    } else if id == "packed-hash-demo-1"@ || id == "packed-hash-demo-2"@ {
        DemoRequest::PackedHash
    } else if id == "kth-hash-demo"@ {
        DemoRequest::KthHash
    } else if id == "bernoulli-demo"@ {
        DemoRequest::Bernoulli
    } else if id == "k-hash-pdf"@ || id == "k-hash-pdf-comparison"@ {
        DemoRequest::KHashPdf
    } else {
        DemoRequest::Unknown
    }
}

fn id_is(id: &String, name: &str) -> (b: bool)
    ensures
        b == (id@ == name@),
{
    let name = String::from_str(name);
    *id == name
}

/// The demo that the element id `id` asks for.
pub fn route_message(id: &String) -> (r: DemoRequest)
    ensures
        r == route_of(id@),
{
    if id_is(id, "single-hash-demo") {
        DemoRequest::SingleHash
    } else if id_is(id, "double-hash-demo-1") || id_is(id, "double-hash-demo-2") {
        DemoRequest::DoubleHash
    } else if id_is(id, "single-hash-demo-reorient") {
        DemoRequest::SingleHashReoriented
    } else if id_is(id, "uniform-distribution-demo") {
        DemoRequest::UniformDistribution
    } else if id_is(id, "single-hash-pdf-demo") || id_is(id, "single-hash-pdf-demo-hist")
        || id_is(id, "single-hash-simulation-hist") {
        DemoRequest::SingleHashPdf
    } else if id_is(id, "marble-demo") {
        DemoRequest::Marbles
    } else if id_is(id, "packed-hash-demo-1") || id_is(id, "packed-hash-demo-2") {
        DemoRequest::PackedHash
    } else if id_is(id, "kth-hash-demo") {
        DemoRequest::KthHash
    } else if id_is(id, "bernoulli-demo") {
        DemoRequest::Bernoulli
    } else if id_is(id, "k-hash-pdf") || id_is(id, "k-hash-pdf-comparison") {
        DemoRequest::KHashPdf
    } else {
        DemoRequest::Unknown
    }
}

} // verus!
