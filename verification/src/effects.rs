//! Amounts that effects come to together.

use crate::types::Effect;
use vstd::prelude::*;

verus! {

/// What some effects come to together, where each is worth an amount.
pub open spec fn total(effects: Seq<Effect>, worth: spec_fn(Effect) -> int) -> int
    decreases effects.len(),
{
    if effects.len() == 0 {
        0
    } else {
        total(effects.drop_last(), worth) + worth(effects.last())
    }
}

/// Effects one after the other come to what each part comes to.
pub proof fn lemma_total_adds(a: Seq<Effect>, b: Seq<Effect>, worth: spec_fn(Effect) -> int)
    ensures
        total(a + b, worth) == total(a, worth) + total(b, worth),
    decreases b.len(),
{
    if b.len() == 0 {
        assert(a + b =~= a);
    } else {
        lemma_total_adds(a, b.drop_last(), worth);
        assert((a + b).drop_last() =~= a + b.drop_last());
    }
}

/// What up to three effects come to.
pub proof fn lemma_total_of_few(effects: Seq<Effect>, worth: spec_fn(Effect) -> int)
    ensures
        effects.len() == 0 ==> total(effects, worth) == 0,
        effects.len() == 1 ==> total(effects, worth) == worth(effects[0]),
        effects.len() == 2 ==> total(effects, worth) == worth(effects[0]) + worth(effects[1]),
        effects.len() == 3 ==> total(effects, worth) == worth(effects[0]) + worth(effects[1])
            + worth(effects[2]),
{
    reveal_with_fuel(total, 4);
}

} // verus!
