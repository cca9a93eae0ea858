use vstd::prelude::*;

verus! {

/// How many migrations the relational schema has; a database is brought
/// from its current version up to this target.
pub const MIGRATION_COUNT: i32 = 1;

/// Plans the schema migrations of the relational storage backend; running
/// the planned statements is the backend's own concern.
pub struct MigrationManager;

impl MigrationManager {
    /// The schema version this build targets.
    pub fn get_target_version() -> (v: i32)
        ensures
            v == MIGRATION_COUNT,
    {
        MIGRATION_COUNT
    }

    /// The versions of the migrations still to apply, in order: every
    /// version above `current`, up to and including `target`; none when the
    /// schema is already current.
    pub fn migrations_to_apply(current: i32, target: i32) -> (r: Vec<i32>)
        ensures
            current >= target ==> r@.len() == 0,
            current < target ==> r@.len() == target - current,
            forall|i: int| 0 <= i < r@.len() ==> r@[i] == current + 1 + i,
    {
        let mut plan: Vec<i32> = Vec::new();
        if current >= target {
            return plan;
        }
        let mut v: i32 = current;
        while v < target
            invariant
                current <= v <= target,
                plan@.len() == v - current,
                forall|i: int| 0 <= i < plan@.len() ==> plan@[i] == current + 1 + i,
            decreases target - v,
        {
            v = v + 1;
            plan.push(v);
        }
        plan
    }
}

} // verus!
