//! Laws of failure handling, of the optimization tables and of thread
//! numbering: a failure never makes the wrapper more verbose
//! than asked, and stepping down ends at silence.
use vstd::prelude::*;
use crate::compiler_core::compilation_wrapper::{action_rank, adjusted_action, first_unused_action, quieter_action, ExceptionAction};
use crate::compiler_core::compiler_thread::{thread_name, CompilerThread};
use crate::compiler_core::compiler_thread_factory::CompilerThreadFactory;
use crate::compiler_core::phases::{optimization_name, optimization_phase_type, CEOptimization};

verus! {

/// A quieter action is never more verbose, and only `Silent` stays the same.
pub proof fn law_quieter_steps_down(a: ExceptionAction)
    ensures
        action_rank(quieter_action(a)) <= action_rank(a),
        quieter_action(a) == a <==> a == ExceptionAction::Silent,
{
}

/// Stepping down over used-up actions never gives a more verbose action.
pub proof fn law_unused_not_more_verbose(counts: Map<u8, i32>, a: ExceptionAction)
    ensures
        action_rank(first_unused_action(counts, a)) <= action_rank(a),
    decreases action_rank(a),
{
    if a != ExceptionAction::Silent {
        law_unused_not_more_verbose(counts, quieter_action(a));
    }
}

/// Without a systemic failure rate, the adjusted action is never more
/// verbose than the one looked up.
pub proof fn law_adjusted_not_more_verbose(counts: Map<u8, i32>, a: ExceptionAction)
    ensures
        action_rank(adjusted_action(counts, a, false)) <= action_rank(a),
{
    law_unused_not_more_verbose(counts, a);
}

/// With no problems handled yet, the looked-up action is taken as it is.
pub proof fn law_fresh_wrapper_keeps_action(a: ExceptionAction)
    ensures
        adjusted_action(Map::empty(), a, false) == a,
{
}

/// A short key that tells the optimization names apart: length, first and fifth character.
spec fn name_key(o: CEOptimization) -> (nat, char, char) {
    match o {
        CEOptimization::Canonicalization => (16, 'C', 'n'),
        CEOptimization::Inlining => (8, 'I', 'n'),
        CEOptimization::DeadCodeElimination => (19, 'D', 'C'),
        CEOptimization::DeoptimizeToGuard => (17, 'D', 't'),
        CEOptimization::ConditionalElimination => (22, 'C', 'i'),
        CEOptimization::InstructionScheduling => (21, 'I', 'r'),
        CEOptimization::FloatingReads => (13, 'F', 't'),
        CEOptimization::ReadElimination => (15, 'R', 'E'),
        CEOptimization::PartialEscapeAnalysis => (21, 'P', 'i'),
        CEOptimization::LockElimination => (15, 'L', 'E'),
        CEOptimization::SafepointElimination => (20, 'S', 'p'),
        CEOptimization::ExpressionReassociation => (23, 'E', 'e'),
        CEOptimization::DeoptimizationGrouping => (22, 'D', 't'),
        CEOptimization::TrappingNullChecks => (18, 'T', 'p'),
        CEOptimization::FullLoopUnrolling => (17, 'F', 'L'),
        CEOptimization::SpeculativeGuardMovement => (24, 'S', 'u'),
        CEOptimization::LoopPredication => (15, 'L', 'P'),
        CEOptimization::LoopPeeling => (11, 'L', 'P'),
        CEOptimization::LoopUnswitching => (15, 'L', 'U'),
        CEOptimization::PartialLoopUnrolling => (20, 'P', 'i'),
        CEOptimization::BoxNodeOptimization => (19, 'B', 'o'),
        CEOptimization::VectorAPIOptimization => (21, 'V', 'o'),
        CEOptimization::ConstantBlinding => (16, 'C', 't'),
    }
}

proof fn lemma_name_key(o: CEOptimization)
    ensures
        optimization_name(o).len() == name_key(o).0,
        optimization_name(o).len() > 4,
        optimization_name(o)[0] == name_key(o).1,
        optimization_name(o)[4] == name_key(o).2,
{
    match o {
        CEOptimization::Canonicalization => {
            reveal_strlit("Canonicalization");
        },
        CEOptimization::Inlining => {
            reveal_strlit("Inlining");
        },
        CEOptimization::DeadCodeElimination => {
            reveal_strlit("DeadCodeElimination");
        },
        CEOptimization::DeoptimizeToGuard => {
            reveal_strlit("DeoptimizeToGuard");
        },
        CEOptimization::ConditionalElimination => {
            reveal_strlit("ConditionalElimination");
        },
        CEOptimization::InstructionScheduling => {
            reveal_strlit("InstructionScheduling");
        },
        CEOptimization::FloatingReads => {
            reveal_strlit("FloatingReads");
        },
        CEOptimization::ReadElimination => {
            reveal_strlit("ReadElimination");
        },
        CEOptimization::PartialEscapeAnalysis => {
            reveal_strlit("PartialEscapeAnalysis");
        },
        CEOptimization::LockElimination => {
            reveal_strlit("LockElimination");
        },
        CEOptimization::SafepointElimination => {
            reveal_strlit("SafepointElimination");
        },
        CEOptimization::ExpressionReassociation => {
            reveal_strlit("ExpressionReassociation");
        },
        CEOptimization::DeoptimizationGrouping => {
            reveal_strlit("DeoptimizationGrouping");
        },
        CEOptimization::TrappingNullChecks => {
            reveal_strlit("TrappingNullChecks");
        },
        CEOptimization::FullLoopUnrolling => {
            reveal_strlit("FullLoopUnrolling");
        },
        CEOptimization::SpeculativeGuardMovement => {
            reveal_strlit("SpeculativeGuardMovement");
        },
        CEOptimization::LoopPredication => {
            reveal_strlit("LoopPredication");
        },
        CEOptimization::LoopPeeling => {
            reveal_strlit("LoopPeeling");
        },
        CEOptimization::LoopUnswitching => {
            reveal_strlit("LoopUnswitching");
        },
        CEOptimization::PartialLoopUnrolling => {
            reveal_strlit("PartialLoopUnrolling");
        },
        CEOptimization::BoxNodeOptimization => {
            reveal_strlit("BoxNodeOptimization");
        },
        CEOptimization::VectorAPIOptimization => {
            reveal_strlit("VectorAPIOptimization");
        },
        CEOptimization::ConstantBlinding => {
            reveal_strlit("ConstantBlinding");
        },
    }
}

/// A short key that tells the phase types apart: length, first and fifth character.
spec fn phase_key(o: CEOptimization) -> (nat, char, char) {
    match o {
        CEOptimization::Canonicalization => (18, 'C', 'n'),
        CEOptimization::Inlining => (13, 'I', 'n'),
        CEOptimization::DeadCodeElimination => (24, 'D', 'C'),
        CEOptimization::DeoptimizeToGuard => (29, 'C', 'e'),
        CEOptimization::ConditionalElimination => (27, 'C', 'i'),
        CEOptimization::InstructionScheduling => (13, 'S', 'd'),
        CEOptimization::FloatingReads => (17, 'F', 't'),
        CEOptimization::ReadElimination => (20, 'R', 'E'),
        CEOptimization::PartialEscapeAnalysis => (18, 'P', 'i'),
        CEOptimization::LockElimination => (20, 'L', 'E'),
        CEOptimization::SafepointElimination => (29, 'L', 'S'),
        CEOptimization::ExpressionReassociation => (18, 'R', 's'),
        CEOptimization::DeoptimizationGrouping => (27, 'D', 't'),
        CEOptimization::TrappingNullChecks => (26, 'U', 'r'),
        CEOptimization::FullLoopUnrolling => (19, 'L', 'F'),
        CEOptimization::SpeculativeGuardMovement => (29, 'S', 'u'),
        CEOptimization::LoopPredication => (20, 'L', 'P'),
        CEOptimization::LoopPeeling => (16, 'L', 'P'),
        CEOptimization::LoopUnswitching => (20, 'L', 'U'),
        CEOptimization::PartialLoopUnrolling => (22, 'L', 'P'),
        CEOptimization::BoxNodeOptimization => (24, 'B', 'o'),
        CEOptimization::VectorAPIOptimization => (23, 'V', 'o'),
        CEOptimization::ConstantBlinding => (21, 'C', 't'),
    }
}

proof fn lemma_phase_key(o: CEOptimization)
    ensures
        optimization_phase_type(o).len() == phase_key(o).0,
        optimization_phase_type(o).len() > 4,
        optimization_phase_type(o)[0] == phase_key(o).1,
        optimization_phase_type(o)[4] == phase_key(o).2,
        optimization_phase_type(o).len() >= 5 && optimization_phase_type(o).subrange(optimization_phase_type(o).len() - 5, optimization_phase_type(o).len() as int) == "Phase"@,
{
    match o {
        CEOptimization::Canonicalization => {
            reveal_strlit("CanonicalizerPhase");
            reveal_strlit("Phase");
            assert(optimization_phase_type(o).subrange(18 - 5, 18) =~= "Phase"@);
        },
        CEOptimization::Inlining => {
            reveal_strlit("InliningPhase");
            reveal_strlit("Phase");
            assert(optimization_phase_type(o).subrange(13 - 5, 13) =~= "Phase"@);
        },
        CEOptimization::DeadCodeElimination => {
            reveal_strlit("DeadCodeEliminationPhase");
            reveal_strlit("Phase");
            assert(optimization_phase_type(o).subrange(24 - 5, 24) =~= "Phase"@);
        },
        CEOptimization::DeoptimizeToGuard => {
            reveal_strlit("ConvertDeoptimizeToGuardPhase");
            reveal_strlit("Phase");
            assert(optimization_phase_type(o).subrange(29 - 5, 29) =~= "Phase"@);
        },
        CEOptimization::ConditionalElimination => {
            reveal_strlit("ConditionalEliminationPhase");
            reveal_strlit("Phase");
            assert(optimization_phase_type(o).subrange(27 - 5, 27) =~= "Phase"@);
        },
        CEOptimization::InstructionScheduling => {
            reveal_strlit("SchedulePhase");
            reveal_strlit("Phase");
            assert(optimization_phase_type(o).subrange(13 - 5, 13) =~= "Phase"@);
        },
        CEOptimization::FloatingReads => {
            reveal_strlit("FloatingReadPhase");
            reveal_strlit("Phase");
            assert(optimization_phase_type(o).subrange(17 - 5, 17) =~= "Phase"@);
        },
        CEOptimization::ReadElimination => {
            reveal_strlit("ReadEliminationPhase");
            reveal_strlit("Phase");
            assert(optimization_phase_type(o).subrange(20 - 5, 20) =~= "Phase"@);
        },
        CEOptimization::PartialEscapeAnalysis => {
            reveal_strlit("PartialEscapePhase");
            reveal_strlit("Phase");
            assert(optimization_phase_type(o).subrange(18 - 5, 18) =~= "Phase"@);
        },
        CEOptimization::LockElimination => {
            reveal_strlit("LockEliminationPhase");
            reveal_strlit("Phase");
            assert(optimization_phase_type(o).subrange(20 - 5, 20) =~= "Phase"@);
        },
        CEOptimization::SafepointElimination => {
            reveal_strlit("LoopSafepointEliminationPhase");
            reveal_strlit("Phase");
            assert(optimization_phase_type(o).subrange(29 - 5, 29) =~= "Phase"@);
        },
        CEOptimization::ExpressionReassociation => {
            reveal_strlit("ReassociationPhase");
            reveal_strlit("Phase");
            assert(optimization_phase_type(o).subrange(18 - 5, 18) =~= "Phase"@);
        },
        CEOptimization::DeoptimizationGrouping => {
            reveal_strlit("DeoptimizationGroupingPhase");
            reveal_strlit("Phase");
            assert(optimization_phase_type(o).subrange(27 - 5, 27) =~= "Phase"@);
        },
        CEOptimization::TrappingNullChecks => {
            reveal_strlit("UseTrappingNullChecksPhase");
            reveal_strlit("Phase");
            assert(optimization_phase_type(o).subrange(26 - 5, 26) =~= "Phase"@);
        },
        CEOptimization::FullLoopUnrolling => {
            reveal_strlit("LoopFullUnrollPhase");
            reveal_strlit("Phase");
            assert(optimization_phase_type(o).subrange(19 - 5, 19) =~= "Phase"@);
        },
        CEOptimization::SpeculativeGuardMovement => {
            reveal_strlit("SpeculativeGuardMovementPhase");
            reveal_strlit("Phase");
            assert(optimization_phase_type(o).subrange(29 - 5, 29) =~= "Phase"@);
        },
        CEOptimization::LoopPredication => {
            reveal_strlit("LoopPredicationPhase");
            reveal_strlit("Phase");
            assert(optimization_phase_type(o).subrange(20 - 5, 20) =~= "Phase"@);
        },
        CEOptimization::LoopPeeling => {
            reveal_strlit("LoopPeelingPhase");
            reveal_strlit("Phase");
            assert(optimization_phase_type(o).subrange(16 - 5, 16) =~= "Phase"@);
        },
        CEOptimization::LoopUnswitching => {
            reveal_strlit("LoopUnswitchingPhase");
            reveal_strlit("Phase");
            assert(optimization_phase_type(o).subrange(20 - 5, 20) =~= "Phase"@);
        },
        CEOptimization::PartialLoopUnrolling => {
            reveal_strlit("LoopPartialUnrollPhase");
            reveal_strlit("Phase");
            assert(optimization_phase_type(o).subrange(22 - 5, 22) =~= "Phase"@);
        },
        CEOptimization::BoxNodeOptimization => {
            reveal_strlit("BoxNodeOptimizationPhase");
            reveal_strlit("Phase");
            assert(optimization_phase_type(o).subrange(24 - 5, 24) =~= "Phase"@);
        },
        CEOptimization::VectorAPIOptimization => {
            reveal_strlit("VectorAPIExpansionPhase");
            reveal_strlit("Phase");
            assert(optimization_phase_type(o).subrange(23 - 5, 23) =~= "Phase"@);
        },
        CEOptimization::ConstantBlinding => {
            reveal_strlit("ConstantBlindingPhase");
            reveal_strlit("Phase");
            assert(optimization_phase_type(o).subrange(21 - 5, 21) =~= "Phase"@);
        },
    }
}

/// Distinct optimizations have distinct names.
pub proof fn law_optimization_names_distinct(a: CEOptimization, b: CEOptimization)
    ensures
        optimization_name(a) == optimization_name(b) <==> a == b,
{
    lemma_name_key(a);
    lemma_name_key(b);
}

/// Every optimization's phase type ends in `Phase`, and distinct
/// optimizations have distinct phase types.
pub proof fn law_phase_types_distinct(a: CEOptimization, b: CEOptimization)
    ensures
        optimization_phase_type(a).len() >= 5,
        optimization_phase_type(a).subrange(
            optimization_phase_type(a).len() - 5,
            optimization_phase_type(a).len() as int,
        ) == "Phase"@,
        optimization_phase_type(a) == optimization_phase_type(b) <==> a == b,
{
    lemma_phase_key(a);
    lemma_phase_key(b);
}

/// What one call of `CompilerThreadFactory::new_thread_with_id` does, as it
/// states it: the thread gets the counter as its id and in its name, and
/// the counter moves on by one.
pub open spec fn numbered_step(before: CompilerThreadFactory, after: CompilerThreadFactory, t: CompilerThread) -> bool {
    &&& after.thread_counter == before.thread_counter + 1
    &&& after.thread_name_prefix == before.thread_name_prefix
    &&& t.thread_id == before.thread_counter
    &&& t.thread_name@ == thread_name(before.thread_name_prefix@, before.thread_counter)
}

/// Threads made one after another by a factory are numbered in turn from
/// its counter: the `k`-th gets the counter plus `k` as its id and in its
/// name, so no two get the same id, and the counter ends past the last.
pub proof fn law_threads_numbered_in_turn(states: Seq<CompilerThreadFactory>, threads: Seq<CompilerThread>)
    requires
        states.len() == threads.len() + 1,
        forall|k: int| 0 <= k < threads.len() ==> numbered_step(#[trigger] states[k], states[k + 1], threads[k]),
    ensures
        states.last().thread_counter == states[0].thread_counter + threads.len(),
        states.last().thread_name_prefix == states[0].thread_name_prefix,
        forall|k: int| 0 <= k < threads.len() ==> (#[trigger] threads[k]).thread_id == states[0].thread_counter + k,
        forall|k: int| 0 <= k < threads.len() ==> (#[trigger] threads[k]).thread_name@
            == thread_name(states[0].thread_name_prefix@, (states[0].thread_counter + k) as u64),
        forall|j: int, k: int| 0 <= j < k < threads.len() ==> (#[trigger] threads[j]).thread_id != (#[trigger] threads[k]).thread_id,
    decreases threads.len(),
{
    if threads.len() > 0 {
        let m = threads.len() - 1;
        let ss = states.drop_last();
        let ts = threads.drop_last();
        assert forall|k: int| 0 <= k < ts.len() implies numbered_step(#[trigger] ss[k], ss[k + 1], ts[k]) by {
            assert(numbered_step(states[k], states[k + 1], threads[k]));
        }
        law_threads_numbered_in_turn(ss, ts);
        assert(ss.last() == states[m]);
        assert(ss[0] == states[0]);
        assert(numbered_step(states[m], states[m + 1], threads[m]));
        assert forall|k: int| 0 <= k < threads.len() implies (#[trigger] threads[k]).thread_id == states[0].thread_counter + k by {
            if k < m {
                assert(threads[k] == ts[k]);
            }
        }
        assert forall|k: int| 0 <= k < threads.len() implies (#[trigger] threads[k]).thread_name@
            == thread_name(states[0].thread_name_prefix@, (states[0].thread_counter + k) as u64) by {
            if k < m {
                assert(threads[k] == ts[k]);
            }
        }
    }
}

} // verus!
