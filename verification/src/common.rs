//! Ports drawn at random.

use vstd::prelude::*;

verus! {

/// `rand::rngs::SmallRng`: a generator of random numbers. Nothing is known
/// of what it holds.
#[verifier::external_type_specification]
#[verifier::external_body]
pub struct ExSmallRng(rand::rngs::SmallRng);

/// The lowest port that is drawn.
pub const FIRST_RANDOM_PORT: u16 = 32768;

/// The port below which the ports that are drawn lie.
pub const END_RANDOM_PORT: u16 = 65535;

/// `rand::Rng::gen_range` over `low..high`: a number that is at least `low`
/// and below `high`. The range must not be empty, or the call panics.
#[verifier::external_body]
fn draw_between(generator: &mut rand::rngs::SmallRng, low: u16, high: u16) -> (drawn: u16)
    requires
        low < high,
    ensures
        low <= drawn < high,
{
    rand::Rng::gen_range(generator, low..high)
}

/// A port for a mapping whose port does not matter: one of the ports from
/// 32768 up to, but not including, 65535.
pub fn random_port(generator: &mut rand::rngs::SmallRng) -> (port: u16)
    ensures
        FIRST_RANDOM_PORT <= port < END_RANDOM_PORT,
{
    draw_between(generator, FIRST_RANDOM_PORT, END_RANDOM_PORT)
}

} // verus!
