use vstd::prelude::*;

verus! {

/// Whether a light reaches a surface point, given what its shadow ray found.
///
/// `occluder` is the squared-distance key of the nearest geometry that the
/// shadow ray hits, if any; `light` is the squared-distance key of the light
/// itself, or `None` for a light without position (directional), which any
/// occluder blocks. A light is reached when nothing is hit, or when the hit
/// lies strictly beyond the light.
pub open spec fn reaches(occluder: Option<u32>, light: Option<u32>) -> bool {
    match occluder {
        None => true,
        Some(d) => match light {
            Some(l) => d > l,
            None => false,
        },
    }
}

/// The shadow test of a point or directional light.
///
/// An occluder no farther than the light always blocks it, so the light then
/// adds no diffuse term at that point.
pub fn light_reaches(occluder: Option<u32>, light: Option<u32>) -> (r: bool)
    ensures
        r == reaches(occluder, light),
        occluder is None ==> r,
        match (occluder, light) {
            (Some(d), Some(l)) => d <= l ==> !r,
            (Some(_), None) => !r,
            _ => true,
        },
{
    match occluder {
        None => true,
        Some(d) => match light {
            Some(l) => d > l,
            None => false,
        },
    }
}

/// What the shading engine does after the local term of one hit.
#[derive(Clone, Copy, Debug, PartialEq, Eq, Structural)]
pub enum ReflectionPlan {
    /// The local color is the final color.
    LocalOnly,
    /// Cast a mirror ray, and shade what it hits with the given depth budget.
    Reflect { remaining: u32 },
}

/// The reflection policy: a mirror ray is cast only while the depth budget is
/// positive and the surface reflects, and it carries one level less of budget.
pub open spec fn reflection_plan(depth: u32, reflective: bool) -> ReflectionPlan {
    if depth > 0 && reflective {
        ReflectionPlan::Reflect { remaining: (depth - 1) as u32 }
    } else {
        ReflectionPlan::LocalOnly
    }
}

/// Decides whether to recurse into a reflection, from the remaining depth
/// budget and whether the hit material's reflectivity is positive.
pub fn plan_reflection(depth: u32, reflective: bool) -> (r: ReflectionPlan)
    ensures
        r == reflection_plan(depth, reflective),
        !reflective ==> r == ReflectionPlan::LocalOnly,
        match r {
            ReflectionPlan::Reflect { remaining } => remaining < depth,
            ReflectionPlan::LocalOnly => true,
        },
{
    if depth > 0 && reflective {
        ReflectionPlan::Reflect { remaining: depth - 1 }
    } else {
        ReflectionPlan::LocalOnly
    }
}

/// The number of mirror rays that one primary hit can spawn along a chain of
/// reflections, when every surface on it reflects: exactly the depth budget.
pub open spec fn reflection_chain_len(depth: u32) -> nat
    decreases depth,
{
    match reflection_plan(depth, true) {
        ReflectionPlan::Reflect { remaining } => 1 + reflection_chain_len(remaining),
        ReflectionPlan::LocalOnly => 0,
    }
}

/// Recursion through reflections is bounded by the depth budget: a chain of
/// mirror rays started with budget `depth` has exactly `depth` rays even when
/// every surface reflects, so shading terminates for mutually facing mirrors.
pub proof fn lemma_reflection_chain_bounded(depth: u32)
    ensures
        reflection_chain_len(depth) == depth,
    decreases depth,
{
    if depth > 0 {
        lemma_reflection_chain_bounded((depth - 1) as u32);
    }
}

/// A surface without reflectivity never recurses, whatever depth budget is
/// left: its final color is its local color.
pub proof fn lemma_non_reflective_is_local(depth: u32)
    ensures
        reflection_plan(depth, false) == ReflectionPlan::LocalOnly,
{
}

} // verus!
