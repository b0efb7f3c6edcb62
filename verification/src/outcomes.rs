//! Short ways to say what an operation came to.

use crate::ast::ValueModel;
use crate::draft::{FailureModel, PlanModel};
use crate::request::EffectModel;
use vstd::prelude::*;

verus! {

/// Whether it failed with a catchable error of this type.
pub open spec fn throws<T>(r: Result<T, FailureModel>, error_type: Seq<char>) -> bool {
    r matches Err(FailureModel::Throw { error_type: t, .. }) && t == error_type
}

/// Whether it gave this value at once.
pub open spec fn gives(r: Result<EffectModel, FailureModel>, v: ValueModel) -> bool {
    r == Ok::<_, FailureModel>(EffectModel::Plan(PlanModel::Ready(v)))
}

/// Whether it gave this truth value at once.
pub open spec fn says(r: Result<PlanModel, FailureModel>, b: bool) -> bool {
    r == Ok::<_, FailureModel>(PlanModel::Ready(ValueModel::Logic(b)))
}

/// Whether it left this number of things for the host to turn into a number.
pub open spec fn counts(r: Result<EffectModel, FailureModel>, n: nat) -> bool {
    r == Ok::<_, FailureModel>(EffectModel::Plan(PlanModel::Ratio { part: n as u64, whole: 1 }))
}

} // verus!
