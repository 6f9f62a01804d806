use vstd::prelude::*;

verus! {

/// Fixed-update stage of the director.
#[allow(non_camel_case_types)]
#[derive(Debug, Clone, Copy, PartialEq, Eq, Structural, Hash)]
pub struct DETTEROT_Director;

/// Fixed-update stage of the missions.
#[allow(non_camel_case_types)]
#[derive(Debug, Clone, Copy, PartialEq, Eq, Structural, Hash)]
pub struct DETTEROT_Missions;

/// Fixed-update stage of the spawns.
#[allow(non_camel_case_types)]
#[derive(Debug, Clone, Copy, PartialEq, Eq, Structural, Hash)]
pub struct DETTEROT_Spawns;

/// Fixed-update stage of the physics step.
#[allow(non_camel_case_types)]
#[derive(Debug, Clone, Copy, PartialEq, Eq, Structural, Hash)]
pub struct DETTEROT_PhysicsStep;

/// Fixed-update stage of the clean-up.
#[allow(non_camel_case_types)]
#[derive(Debug, Clone, Copy, PartialEq, Eq, Structural, Hash)]
pub struct DETTEROT_Cleanup;

/// The fixed-update stages.
#[derive(Debug, Clone, Copy, PartialEq, Eq, Structural, Hash)]
pub enum FixedStage {
    Director,
    Missions,
    Spawns,
    PhysicsStep,
    Cleanup,
}

/// Position of a stage in the fixed update: each runs after the one before it.
pub open spec fn stage_rank(stage: FixedStage) -> int {
    match stage {
        FixedStage::Director => 0,
        FixedStage::Missions => 1,
        FixedStage::Spawns => 2,
        FixedStage::PhysicsStep => 3,
        FixedStage::Cleanup => 4,
    }
}

/// The stages in the order the fixed update runs them.
pub fn fixed_update_order() -> (r: Vec<FixedStage>)
    ensures
        r@.len() == 5,
        forall|i: int| 0 <= i < 5 ==> stage_rank(#[trigger] r@[i]) == i,
{
    vec![FixedStage::Director, FixedStage::Missions, FixedStage::Spawns, FixedStage::PhysicsStep, FixedStage::Cleanup]
}

} // verus!
