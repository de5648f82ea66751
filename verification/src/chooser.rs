//! The random span chooser: the source of the truncated transfer sizes.
//!
//! Every read or write request of length two or more is truncated to a
//! span chosen in `[1, len - 1]`.  The chooser is an injected capability
//! so that deterministic seeding is possible in tests.

use vstd::prelude::*;

verus! {

/// Declares `rand`'s standard generator so that it can stand in a field.
#[verifier::external_type_specification]
#[verifier::external_body]
pub struct ExStdRng(rand::rngs::StdRng);

/// Relies on `rand::SeedableRng::from_entropy` for `StdRng`: a fresh
/// generator seeded from operating-system entropy.  Nothing can be
/// promised of the values it will produce, and it aborts if the
/// operating system cannot supply entropy.
#[verifier::external_body]
fn std_rng_from_entropy() -> rand::rngs::StdRng {
    rand::SeedableRng::from_entropy()
}

/// Relies on `rand::SeedableRng::seed_from_u64` for `StdRng`: a
/// generator deterministically seeded from the given word.  Nothing is
/// promised of the values it will produce.
#[verifier::external_body]
fn std_rng_from_seed(seed: u64) -> rand::rngs::StdRng {
    rand::SeedableRng::seed_from_u64(seed)
}

/// Relies on `rand::Rng::gen_range`: a value in the given half-open
/// range.  It panics only on an empty range, which the precondition
/// rules out.
#[verifier::external_body]
fn draw_in_range(rng: &mut rand::rngs::StdRng, lo: usize, hi: usize) -> (t: usize)
    requires
        lo < hi,
    ensures
        lo <= t < hi,
{
    rand::Rng::gen_range(rng, lo..hi)
}

/// A source of truncated transfer spans.  For a requested length of at
/// least two, it yields a span of at least one byte and strictly less
/// than the request, so that a truncated transfer is never empty (an
/// empty read would read as end-of-stream) and never complete.
pub trait SpanChooser {
    fn choose_span(&mut self, len: usize) -> (t: usize)
        requires
            len >= 2,
        ensures
            1 <= t < len;
}

/// A span chooser backed by `rand`'s standard generator.
pub struct RngChooser {
    rng: rand::rngs::StdRng,
}

impl RngChooser {
    /// A chooser seeded from operating-system entropy.
    pub fn from_entropy() -> RngChooser {
        RngChooser { rng: std_rng_from_entropy() }
    }

    /// A chooser deterministically seeded from the given word, for
    /// reproducible runs.
    pub fn from_seed(seed: u64) -> RngChooser {
        RngChooser { rng: std_rng_from_seed(seed) }
    }
}

impl SpanChooser for RngChooser {
    fn choose_span(&mut self, len: usize) -> (t: usize) {
        draw_in_range(&mut self.rng, 1, len)
    }
}

/// A deterministic span chooser that cycles through the admissible
/// spans, for tests that need to predict every truncation exactly.
pub struct CycleChooser {
    /// The round counter; the next span is `1 + round % (len - 1)`.
    pub round: usize,
}

impl CycleChooser {
    pub fn new() -> (c: CycleChooser)
        ensures
            c.round == 0,
    {
        CycleChooser { round: 0 }
    }
}

impl SpanChooser for CycleChooser {
    fn choose_span(&mut self, len: usize) -> (t: usize) {
        let t = 1 + self.round % (len - 1);
        self.round = if self.round == usize::MAX {
            0
        } else {
            self.round + 1
        };
        t
    }
}

/// The size actually requested from the underlying stream for a caller
/// request of length `len`: the request itself when it is at most one
/// byte (a pass-through, which consumes no randomness), and otherwise a
/// chosen span in `[1, len - 1]`.
pub fn truncated_request<C: SpanChooser>(chooser: &mut C, len: usize) -> (t: usize)
    ensures
        len <= 1 ==> t == len && *final(chooser) == *old(chooser),
        len >= 2 ==> 1 <= t < len,
{
    if len <= 1 {
        len
    } else {
        chooser.choose_span(len)
    }
}

} // verus!
