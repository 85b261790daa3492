use crate::cacher::lemma_u32_exact_duplication;
use crate::cacher::Cacher;
use vstd::prelude::*;

verus! {

/// What a workout session asks for: strength exercises, a rest day, or a run.
#[derive(PartialEq, Eq, Structural, Debug)]
pub enum WorkoutPlan {
    Strength { pushups: u32, situps: u32 },
    Rest,
    Cardio { minutes: u32 },
}

/// The plan owed for a given intensity and random number: low intensity asks
/// for pushups and situps, otherwise the random number decides between a rest
/// day and a run, with the intensity as the number of repetitions or minutes.
pub open spec fn spec_workout_plan(intensity: u32, random_number: u32) -> WorkoutPlan {
    if intensity < 25 {
        WorkoutPlan::Strength { pushups: intensity as u32, situps: intensity as u32 }
    } else if random_number == 3 {
        WorkoutPlan::Rest
    } else {
        WorkoutPlan::Cardio { minutes: intensity as u32 }
    }
}

/// Decides the workout plan. The intensity is wrapped in a memoizing
/// evaluator, as the repeated uses of the expensive computation it stands for
/// are what the evaluator is made to avoid.
pub fn generate_workout_plan(intensity: u32, random_number: u32) -> (plan: WorkoutPlan)
    ensures
        plan == spec_workout_plan(intensity, random_number),
{
    proof {
        lemma_u32_exact_duplication();
    }
    let identity = |num: u32| -> (r: u32)
        ensures
            r == num,
        { num };
    let mut expensive_result = Cacher::new(identity);
    if intensity < 25 {
        let pushups = expensive_result.value(intensity);
        let situps = expensive_result.value(intensity);
        WorkoutPlan::Strength { pushups, situps }
    } else {
        if random_number == 3 {
            WorkoutPlan::Rest
        } else {
            WorkoutPlan::Cardio { minutes: expensive_result.value(intensity) }
        }
    }
}

} // verus!
