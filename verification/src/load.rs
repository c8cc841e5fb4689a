//! Background load: independent busy units that perturb the scheduler while
//! a measurement runs. Each unit repeatedly performs one trivial arithmetic
//! step and then yields briefly; the units never touch engine state and are
//! killed with the process. The driver owns the spawn-and-sleep loop; the
//! arithmetic step lives here.

use vstd::prelude::*;

verus! {

/// One step of a background-load unit: double the counter, wrapping on
/// overflow. The work is deliberately trivial — its only purpose is to keep
/// the scheduler busy.
pub fn busy_step(x: usize) -> (r: usize)
    ensures
        r as nat == (2 * x as nat) % (usize::MAX as nat + 1),
{
    x.wrapping_mul(2)
}

} // verus!
