//! Surface patterns of the balls and the codes that the shader reads.

use vstd::prelude::*;
use rand::rngs::StdRng;
use rand::seq::IndexedRandom;

verus! {

/// The surface pattern painted on a ball or on the hole.
#[derive(Clone, Copy, Debug, PartialEq, Eq, Structural)]
pub enum Pattern {
    Solid,
    Checker,
    Stripe1,
    Stripe2,
    Bubble,
}

/// The number the shader receives for each pattern.
pub open spec fn spec_pattern_code(p: Pattern) -> u32 {
    match p {
        Pattern::Solid => 0,
        Pattern::Checker => 1,
        Pattern::Stripe1 => 2,
        Pattern::Stripe2 => 3,
        Pattern::Bubble => 4,
    }
}

impl Pattern {
    /// The value written into the per-instance `pattern` field.
    pub fn code(self) -> (c: u32)
        ensures
            c == spec_pattern_code(self),
    {
        match self {
            Pattern::Solid => 0,
            Pattern::Checker => 1,
            Pattern::Stripe1 => 2,
            Pattern::Stripe2 => 3,
            Pattern::Bubble => 4,
        }
    }
}

/// Every pattern, in the order of their codes.
pub open spec fn spec_all_patterns() -> Seq<Pattern> {
    seq![Pattern::Solid, Pattern::Checker, Pattern::Stripe1, Pattern::Stripe2, Pattern::Bubble]
}

/// The patterns the balls and the hole are painted with, one of each.
pub fn all_patterns() -> (v: Vec<Pattern>)
    ensures
        v@ == spec_all_patterns(),
        forall|p: Pattern| v@.contains(p),
{
    let v = vec![Pattern::Solid, Pattern::Checker, Pattern::Stripe1, Pattern::Stripe2, Pattern::Bubble];
    proof {
        assert(v@ =~= spec_all_patterns());
        assert forall|p: Pattern| v@.contains(p) by {
            match p {
                Pattern::Solid => assert(v@[0] == p),
                Pattern::Checker => assert(v@[1] == p),
                Pattern::Stripe1 => assert(v@[2] == p),
                Pattern::Stripe2 => assert(v@[3] == p),
                Pattern::Bubble => assert(v@[4] == p),
            }
        }
    }
    v
}

#[verifier::external_type_specification]
#[verifier::external_body]
pub struct ExStdRng(StdRng);

/// Calls `IndexedRandom::choose` on the patterns, which gives nothing for an empty slice and
/// otherwise the element at an index that the generator draws from the slice's index range.
/// Which element comes back depends on the generator's state, and the contract says only that
/// it is one of the slice's.
#[verifier::external_body]
fn choose_pattern(rng: &mut StdRng, patterns: &[Pattern]) -> (r: Option<Pattern>)
    ensures
        r is None <==> patterns@.len() == 0,
        r matches Some(p) ==> patterns@.contains(p),
{
    patterns.choose(rng).copied()
}

/// Draws one of the given patterns at random.
pub fn pick_pattern(rng: &mut StdRng, patterns: &Vec<Pattern>) -> (p: Pattern)
    requires
        patterns.len() > 0,
    ensures
        patterns@.contains(p),
{
    match choose_pattern(rng, patterns.as_slice()) {
        Some(p) => p,
        None => {
            assert(false);
            Pattern::Solid
        },
    }
}

} // verus!
