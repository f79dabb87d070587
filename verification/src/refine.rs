//! Gate for the optional LLM refinement pass: only ambiguous listings are worth a model
//! call.

use vstd::prelude::*;
use crate::deal::{has_flag, Flag};

verus! {

/// Whether a listing is ambiguous.
pub open spec fn ambiguous(family: bool, models: nat, flags: Seq<Flag>) -> bool {
    family && (models >= 2 || flags.contains(Flag::PriceOutlier))
}

/// A listing is ambiguous when it matched a product family and either enumerates several
/// sibling models (stuffed title? genuine bundle?) or carries a price-outlier flag (scam?
/// genuine deal?). Without a family match it is never refined.
pub fn needs_refinement(family: Option<&str>, models: &[String], flags: &[Flag]) -> (r: bool)
    ensures
        r == ambiguous(family is Some, models@.len(), flags@),
{
    family.is_some() && (models.len() >= 2 || has_flag(flags, Flag::PriceOutlier))
}

/// Only a listing of a known family is ambiguous, and it is exactly where it names two
/// models or more, or carries the outlier flag.
pub proof fn ambiguity_needs_a_family(models: nat, flags: Seq<Flag>)
    ensures
        !ambiguous(false, models, flags),
        models >= 2 ==> ambiguous(true, models, flags),
        models < 2 ==> (ambiguous(true, models, flags) <==> exists|i: int|
            0 <= i < flags.len() && #[trigger] flags[i] == Flag::PriceOutlier),
{
    if flags.contains(Flag::PriceOutlier) {
        let i = choose|i: int| 0 <= i < flags.len() && flags[i] == Flag::PriceOutlier;
        assert(flags[i] == Flag::PriceOutlier);
    }
}

} // verus!
