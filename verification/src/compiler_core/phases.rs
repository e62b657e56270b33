//! Optimization phases, phase suites and the compiler tiers built from them.
use vstd::prelude::*;

verus! {

/// A phase that can be applied to a graph within a given context.
pub trait Phase<C> {
    /// Applies this phase with the given context.
    fn apply(&self, context: &C) {
    }
}

/// An ordered collection of phases that are applied in sequence.
#[verifier::reject_recursive_types(C)]
pub struct PhaseSuite<C> {
    /// The phases in this suite, in application order.
    pub phases: Vec<Box<dyn Phase<C>>>,
}

impl<C> Clone for PhaseSuite<C> {
    /// Phases cannot be copied, so the copy starts without phases.
    fn clone(&self) -> (r: Self)
        ensures
            r.phases@.len() == 0,
    {
        PhaseSuite { phases: Vec::new() }
    }
}

impl<C> PhaseSuite<C> {
    /// A suite without phases.
    pub fn new() -> (r: Self)
        ensures
            r.phases@.len() == 0,
    {
        PhaseSuite { phases: Vec::new() }
    }

    /// Appends `phase` as the last phase of the suite.
    pub fn append_phase(&mut self, phase: Box<dyn Phase<C>>)
        ensures
            final(self).phases@ == old(self).phases@.push(phase),
    {
        self.phases.push(phase);
    }

    /// The phases of the suite, in application order.
    pub fn get_phases(&self) -> (r: &[Box<dyn Phase<C>>])
        ensures
            r@ == self.phases@,
    {
        self.phases.as_slice()
    }

    /// Applies every phase of the suite, in order.
    pub fn apply(&self, context: &C) {
        let mut i: usize = 0;
        while i < self.phases.len()
            invariant
                i <= self.phases@.len(),
            decreases self.phases.len() - i,
        {
            self.phases[i].apply(context);
            i = i + 1;
        }
    }
}

impl<C> Default for PhaseSuite<C> {
    fn default() -> (r: Self)
        ensures
            r.phases@.len() == 0,
    {
        Self::new()
    }
}

/// Context for the high tier.
#[derive(Debug, Clone)]
pub struct HighTierContext;

/// Context for the mid tier.
#[derive(Debug, Clone)]
pub struct MidTierContext;

/// Context for the low tier.
#[derive(Debug, Clone)]
pub struct LowTierContext;

/// A tier: a phase suite that runs its phases in order.
#[derive(Clone)]
#[verifier::reject_recursive_types(C)]
pub struct BaseTier<C> {
    /// The underlying phase suite.
    pub suite: PhaseSuite<C>,
}

impl<C> BaseTier<C> {
    /// A tier without phases.
    pub fn new() -> (r: Self)
        ensures
            r.suite.phases@.len() == 0,
    {
        BaseTier { suite: PhaseSuite::new() }
    }

    /// Appends `phase` as the last phase of the tier.
    pub fn append_phase(&mut self, phase: Box<dyn Phase<C>>)
        ensures
            final(self).suite.phases@ == old(self).suite.phases@.push(phase),
    {
        self.suite.phases.push(phase);
    }

    /// The phases of the tier, in application order.
    pub fn get_phases(&self) -> (r: &[Box<dyn Phase<C>>])
        ensures
            r@ == self.suite.phases@,
    {
        self.suite.get_phases()
    }

    /// Applies every phase of the tier, in order.
    pub fn apply(&self, context: &C) {
        self.suite.apply(context);
    }
}

impl<C> Default for BaseTier<C> {
    fn default() -> (r: Self)
        ensures
            r.suite.phases@.len() == 0,
    {
        Self::new()
    }
}

/// The names of the phases of the standard high tier, in order.
pub open spec fn high_tier_phase_names() -> Seq<Seq<char>> {
    seq![
        "CanonicalizerPhase"@,
        "InliningPhase"@,
        "DeadCodeEliminationPhase"@,
        "DisableOverflownCountedLoopsPhase"@,
        "ConvertDeoptimizeToGuardPhase"@,
        "IterativeConditionalEliminationPhase"@,
        "DominatorBasedGlobalValueNumberingPhase"@,
        "LoopFullUnrollPhase"@,
        "LoopPeelingPhase"@,
        "LoopUnswitchingPhase"@,
        "BoxNodeIdentityPhase"@,
        "FinalPartialEscapePhase"@,
        "VectorAPIExpansionPhase"@,
        "ReadEliminationPhase"@,
        "BoxNodeOptimizationPhase"@,
        "HighTierLoweringPhase"@,
    ]
}

/// The names of the phases of the standard mid tier, in order.
pub open spec fn mid_tier_phase_names() -> Seq<Seq<char>> {
    seq![
        "LockEliminationPhase"@,
        "FloatingReadPhase"@,
        "IterativeConditionalEliminationPhase"@,
        "LoopPredicationPhase"@,
        "LoopSafepointEliminationPhase"@,
        "SpeculativeGuardMovementPhase"@,
        "GuardLoweringPhase"@,
        "InsertGuardFencesPhase"@,
        "VerifyHeapAtReturnPhase"@,
        "LoopFullUnrollPhase"@,
        "RemoveValueProxyPhase"@,
        "LoopSafepointInsertionPhase"@,
        "MidTierLoweringPhase"@,
        "IterativeConditionalEliminationPhase"@,
        "OptimizeDivPhase"@,
        "FrameStateAssignmentPhase"@,
        "LoopPartialUnrollPhase"@,
        "ReassociationPhase"@,
        "DeoptimizationGroupingPhase"@,
        "CanonicalizerPhase"@,
        "WriteBarrierAdditionPhase"@,
    ]
}

/// The names of the phases of the standard low tier, in order.
pub open spec fn low_tier_phase_names() -> Seq<Seq<char>> {
    seq![
        "ProfileCompiledMethodsPhase"@,
        "InitMemoryVerificationPhase"@,
        "LowTierLoweringPhase"@,
        "ExpandLogicPhase"@,
        "OptimizeOffsetAddressPhase"@,
        "FixReadsPhase"@,
        "WriteBarrierAdditionPhase"@,
        "CanonicalizerPhase"@,
        "AddressLoweringPhase"@,
        "FinalCanonicalizerPhase"@,
        "DeadCodeEliminationPhase"@,
        "PropagateDeoptimizeProbabilityPhase"@,
        "OptimizeExtendsPhase"@,
        "RemoveOpaqueValuePhase"@,
        "FinalSchedulePhase"@,
        "TransplantGraphsPhase"@,
    ]
}

/// The high tier: early, aggressive optimizations (inlining, canonicalization, ...).
#[derive(Clone)]
pub struct HighTier {
    /// The underlying tier.
    pub base: BaseTier<HighTierContext>,
}

impl HighTier {
    /// A high tier without phases.
    pub fn new() -> (r: Self)
        ensures
            r.base.suite.phases@.len() == 0,
    {
        HighTier { base: BaseTier::new() }
    }

    /// Applies the tier's phases.
    pub fn apply(&self, context: &HighTierContext) {
        self.base.apply(context);
    }

    /// The names of the phases of the standard high tier, in order.
    pub fn phase_names() -> (r: Vec<&'static str>)
        ensures
            r@.map_values(|s: &'static str| s@) == high_tier_phase_names(),
    {
        vec![
            "CanonicalizerPhase",
            "InliningPhase",
            "DeadCodeEliminationPhase",
            "DisableOverflownCountedLoopsPhase",
            "ConvertDeoptimizeToGuardPhase",
            "IterativeConditionalEliminationPhase",
            "DominatorBasedGlobalValueNumberingPhase",
            "LoopFullUnrollPhase",
            "LoopPeelingPhase",
            "LoopUnswitchingPhase",
            "BoxNodeIdentityPhase",
            "FinalPartialEscapePhase",
            "VectorAPIExpansionPhase",
            "ReadEliminationPhase",
            "BoxNodeOptimizationPhase",
            "HighTierLoweringPhase",
        ]
    }
}

impl Default for HighTier {
    fn default() -> (r: Self)
        ensures
            r.base.suite.phases@.len() == 0,
    {
        Self::new()
    }
}

/// Options for the high tier.
pub struct HighTierOptions;

impl HighTierOptions {
    /// Whether inlining is performed by default.
    pub const INLINE_DEFAULT: bool = true;
}

/// The mid tier: loop optimizations, guard lowering, ...
#[derive(Clone)]
pub struct MidTier {
    /// The underlying tier.
    pub base: BaseTier<MidTierContext>,
}

impl MidTier {
    /// A mid tier without phases.
    pub fn new() -> (r: Self)
        ensures
            r.base.suite.phases@.len() == 0,
    {
        MidTier { base: BaseTier::new() }
    }

    /// Applies the tier's phases.
    pub fn apply(&self, context: &MidTierContext) {
        self.base.apply(context);
    }

    /// The names of the phases of the standard mid tier, in order.
    pub fn phase_names() -> (r: Vec<&'static str>)
        ensures
            r@.map_values(|s: &'static str| s@) == mid_tier_phase_names(),
    {
        vec![
            "LockEliminationPhase",
            "FloatingReadPhase",
            "IterativeConditionalEliminationPhase",
            "LoopPredicationPhase",
            "LoopSafepointEliminationPhase",
            "SpeculativeGuardMovementPhase",
            "GuardLoweringPhase",
            "InsertGuardFencesPhase",
            "VerifyHeapAtReturnPhase",
            "LoopFullUnrollPhase",
            "RemoveValueProxyPhase",
            "LoopSafepointInsertionPhase",
            "MidTierLoweringPhase",
            "IterativeConditionalEliminationPhase",
            "OptimizeDivPhase",
            "FrameStateAssignmentPhase",
            "LoopPartialUnrollPhase",
            "ReassociationPhase",
            "DeoptimizationGroupingPhase",
            "CanonicalizerPhase",
            "WriteBarrierAdditionPhase",
        ]
    }
}

impl Default for MidTier {
    fn default() -> (r: Self)
        ensures
            r.base.suite.phases@.len() == 0,
    {
        Self::new()
    }
}

/// The low tier: late optimizations just before code generation.
#[derive(Clone)]
pub struct LowTier {
    /// The underlying tier.
    pub base: BaseTier<LowTierContext>,
}

impl LowTier {
    /// A low tier without phases.
    pub fn new() -> (r: Self)
        ensures
            r.base.suite.phases@.len() == 0,
    {
        LowTier { base: BaseTier::new() }
    }

    /// Applies the tier's phases.
    pub fn apply(&self, context: &LowTierContext) {
        self.base.apply(context);
    }

    /// The names of the phases of the standard low tier, in order.
    pub fn phase_names() -> (r: Vec<&'static str>)
        ensures
            r@.map_values(|s: &'static str| s@) == low_tier_phase_names(),
    {
        vec![
            "ProfileCompiledMethodsPhase",
            "InitMemoryVerificationPhase",
            "LowTierLoweringPhase",
            "ExpandLogicPhase",
            "OptimizeOffsetAddressPhase",
            "FixReadsPhase",
            "WriteBarrierAdditionPhase",
            "CanonicalizerPhase",
            "AddressLoweringPhase",
            "FinalCanonicalizerPhase",
            "DeadCodeEliminationPhase",
            "PropagateDeoptimizeProbabilityPhase",
            "OptimizeExtendsPhase",
            "RemoveOpaqueValuePhase",
            "FinalSchedulePhase",
            "TransplantGraphsPhase",
        ]
    }
}

impl Default for LowTier {
    fn default() -> (r: Self)
        ensures
            r.base.suite.phases@.len() == 0,
    {
        Self::new()
    }
}

/// Options for the low tier.
pub struct LowTierOptions;

impl LowTierOptions {
    /// Whether compiled methods are profiled by default.
    pub const PROFILE_COMPILED_METHODS_DEFAULT: bool = false;
}

/// Creates the tiers of a compilation.
pub trait CompilerConfiguration {
    /// Creates the high tier.
    fn create_high_tier(&self) -> HighTier;

    /// Creates the mid tier.
    fn create_mid_tier(&self) -> MidTier;

    /// Creates the low tier.
    fn create_low_tier(&self) -> LowTier;
}

/// The default configuration of the community edition.
pub struct CommunityCompilerConfiguration;

impl CompilerConfiguration for CommunityCompilerConfiguration {
    fn create_high_tier(&self) -> (r: HighTier)
        ensures
            r.base.suite.phases@.len() == 0,
    {
        HighTier::new()
    }

    fn create_mid_tier(&self) -> (r: MidTier)
        ensures
            r.base.suite.phases@.len() == 0,
    {
        MidTier::new()
    }

    fn create_low_tier(&self) -> (r: LowTier)
        ensures
            r.base.suite.phases@.len() == 0,
    {
        LowTier::new()
    }
}

/// A configuration that performs fewer optimizations.
pub struct EconomyCompilerConfiguration;

impl CompilerConfiguration for EconomyCompilerConfiguration {
    fn create_high_tier(&self) -> (r: HighTier)
        ensures
            r.base.suite.phases@.len() == 0,
    {
        EconomyHighTier::new().into_high_tier()
    }

    fn create_mid_tier(&self) -> (r: MidTier)
        ensures
            r.base.suite.phases@.len() == 0,
    {
        EconomyMidTier::new().into_mid_tier()
    }

    fn create_low_tier(&self) -> (r: LowTier)
        ensures
            r.base.suite.phases@.len() == 0,
    {
        EconomyLowTier::new().into_low_tier()
    }
}

/// The economy high tier: a minimal set of high-tier phases.
pub struct EconomyHighTier {
    /// The underlying tier.
    pub base: BaseTier<HighTierContext>,
}

impl EconomyHighTier {
    /// An economy high tier without phases.
    pub fn new() -> (r: Self)
        ensures
            r.base.suite.phases@.len() == 0,
    {
        EconomyHighTier { base: BaseTier::new() }
    }

    /// Applies the tier's phases.
    pub fn apply(&self, context: &HighTierContext) {
        self.base.apply(context);
    }

    /// The high tier this economy tier stands for.
    pub fn into_high_tier(self) -> (r: HighTier)
        ensures
            r.base.suite.phases@.len() == 0,
    {
        HighTier::new()
    }
}

impl Default for EconomyHighTier {
    fn default() -> (r: Self)
        ensures
            r.base.suite.phases@.len() == 0,
    {
        Self::new()
    }
}

/// The economy mid tier: a minimal set of mid-tier phases.
pub struct EconomyMidTier {
    /// The underlying tier.
    pub base: BaseTier<MidTierContext>,
}

impl EconomyMidTier {
    /// An economy mid tier without phases.
    pub fn new() -> (r: Self)
        ensures
            r.base.suite.phases@.len() == 0,
    {
        EconomyMidTier { base: BaseTier::new() }
    }

    /// Applies the tier's phases.
    pub fn apply(&self, context: &MidTierContext) {
        self.base.apply(context);
    }

    /// The mid tier this economy tier stands for.
    pub fn into_mid_tier(self) -> (r: MidTier)
        ensures
            r.base.suite.phases@.len() == 0,
    {
        MidTier::new()
    }
}

impl Default for EconomyMidTier {
    fn default() -> (r: Self)
        ensures
            r.base.suite.phases@.len() == 0,
    {
        Self::new()
    }
}

/// The economy low tier: a minimal set of low-tier phases.
pub struct EconomyLowTier {
    /// The underlying tier.
    pub base: BaseTier<LowTierContext>,
}

impl EconomyLowTier {
    /// An economy low tier without phases.
    pub fn new() -> (r: Self)
        ensures
            r.base.suite.phases@.len() == 0,
    {
        EconomyLowTier { base: BaseTier::new() }
    }

    /// Applies the tier's phases.
    pub fn apply(&self, context: &LowTierContext) {
        self.base.apply(context);
    }

    /// The low tier this economy tier stands for.
    pub fn into_low_tier(self) -> (r: LowTier)
        ensures
            r.base.suite.phases@.len() == 0,
    {
        LowTier::new()
    }
}

impl Default for EconomyLowTier {
    fn default() -> (r: Self)
        ensures
            r.base.suite.phases@.len() == 0,
    {
        Self::new()
    }
}

/// Marks the graph as having fixed reads (the economy configuration never
/// allows floating reads).
#[derive(Debug, Clone, Copy)]
pub struct EconomyMarkFixReadsPhase;

impl EconomyMarkFixReadsPhase {
    /// The single instance.
    pub const SINGLETON: EconomyMarkFixReadsPhase = EconomyMarkFixReadsPhase;
}

impl<C> Phase<C> for EconomyMarkFixReadsPhase {
    fn apply(&self, context: &C) {
    }
}


/// The most important platform-independent optimizations of the compiler, each
/// linked to the option that enables it and to the phase that performs it.
#[derive(Debug, Clone, Copy, PartialEq, Eq, Structural)]
pub enum CEOptimization {
    /// Canonicalization — constant folding, strength reduction, algebraic simplifications.
    Canonicalization,
    /// Inlining — traditional inlining algorithm.
    Inlining,
    /// Dead code elimination — removes unused code.
    DeadCodeElimination,
    /// Convert deoptimize to guard — rewrites deoptimize control flow to guards.
    DeoptimizeToGuard,
    /// Conditional elimination — flow-sensitive type and value analysis.
    ConditionalElimination,
    /// Instruction scheduling — schedules floating nodes for code emission.
    InstructionScheduling,
    /// Floating reads — rewrites fixed reads to floating reads.
    FloatingReads,
    /// Read elimination — removes redundant memory access operations.
    ReadElimination,
    /// Partial escape analysis — replaces object allocation with stack slots.
    PartialEscapeAnalysis,
    /// Lock elimination — merges adjacent synchronized regions.
    LockElimination,
    /// Safepoint elimination — removes safepoint polls in tight loops.
    SafepointElimination,
    /// Expression reassociation — reorders operations for better optimization.
    ExpressionReassociation,
    /// Deoptimization grouping — reduces deoptimization metadata.
    DeoptimizationGrouping,
    /// Trapping null checks — uses hardware signals for implicit null checks.
    TrappingNullChecks,
    /// Full loop unrolling — completely unrolls constant-iteration loops.
    FullLoopUnrolling,
    /// Speculative guard movement — moves loop-invariant guards out of loops.
    SpeculativeGuardMovement,
    /// Loop predication — hoists array bounds checks out of loops.
    LoopPredication,
    /// Loop peeling — moves first/last loop iterations outside the loop.
    LoopPeeling,
    /// Loop unswitching — pulls invariant conditions outside loops.
    LoopUnswitching,
    /// Partial loop unrolling — unrolls loop body multiple times.
    PartialLoopUnrolling,
    /// Box node optimization — reuses dominating boxed/unboxed values.
    BoxNodeOptimization,
    /// Vector API optimization — lowers Vector API operations to SIMD.
    VectorAPIOptimization,
    /// Constant blinding — prevents user-controlled constants from appearing in code.
    ConstantBlinding,
}

/// The name of an optimization.
pub open spec fn optimization_name(o: CEOptimization) -> Seq<char> {
    match o {
        CEOptimization::Canonicalization => "Canonicalization"@,
        CEOptimization::Inlining => "Inlining"@,
        CEOptimization::DeadCodeElimination => "DeadCodeElimination"@,
        CEOptimization::DeoptimizeToGuard => "DeoptimizeToGuard"@,
        CEOptimization::ConditionalElimination => "ConditionalElimination"@,
        CEOptimization::InstructionScheduling => "InstructionScheduling"@,
        CEOptimization::FloatingReads => "FloatingReads"@,
        CEOptimization::ReadElimination => "ReadElimination"@,
        CEOptimization::PartialEscapeAnalysis => "PartialEscapeAnalysis"@,
        CEOptimization::LockElimination => "LockElimination"@,
        CEOptimization::SafepointElimination => "SafepointElimination"@,
        CEOptimization::ExpressionReassociation => "ExpressionReassociation"@,
        CEOptimization::DeoptimizationGrouping => "DeoptimizationGrouping"@,
        CEOptimization::TrappingNullChecks => "TrappingNullChecks"@,
        CEOptimization::FullLoopUnrolling => "FullLoopUnrolling"@,
        CEOptimization::SpeculativeGuardMovement => "SpeculativeGuardMovement"@,
        CEOptimization::LoopPredication => "LoopPredication"@,
        CEOptimization::LoopPeeling => "LoopPeeling"@,
        CEOptimization::LoopUnswitching => "LoopUnswitching"@,
        CEOptimization::PartialLoopUnrolling => "PartialLoopUnrolling"@,
        CEOptimization::BoxNodeOptimization => "BoxNodeOptimization"@,
        CEOptimization::VectorAPIOptimization => "VectorAPIOptimization"@,
        CEOptimization::ConstantBlinding => "ConstantBlinding"@,
    }
}

/// The option that enables an optimization, where one does.
pub open spec fn optimization_option(o: CEOptimization) -> Option<Seq<char>> {
    match o {
        CEOptimization::Canonicalization => None,
        CEOptimization::Inlining => Some("Inline"@),
        CEOptimization::DeadCodeElimination => None,
        CEOptimization::DeoptimizeToGuard => Some("OptConvertDeoptsToGuards"@),
        CEOptimization::ConditionalElimination => Some("ConditionalElimination"@),
        CEOptimization::InstructionScheduling => None,
        CEOptimization::FloatingReads => Some("OptFloatingReads"@),
        CEOptimization::ReadElimination => Some("OptReadElimination"@),
        CEOptimization::PartialEscapeAnalysis => Some("PartialEscapeAnalysis"@),
        CEOptimization::LockElimination => None,
        CEOptimization::SafepointElimination => None,
        CEOptimization::ExpressionReassociation => Some("ReassociateExpressions"@),
        CEOptimization::DeoptimizationGrouping => Some("OptDeoptimizationGrouping"@),
        CEOptimization::TrappingNullChecks => None,
        CEOptimization::FullLoopUnrolling => Some("FullUnroll"@),
        CEOptimization::SpeculativeGuardMovement => Some("SpeculativeGuardMovement"@),
        CEOptimization::LoopPredication => Some("LoopPredication"@),
        CEOptimization::LoopPeeling => Some("LoopPeeling"@),
        CEOptimization::LoopUnswitching => Some("LoopUnswitch"@),
        CEOptimization::PartialLoopUnrolling => Some("PartialUnroll"@),
        CEOptimization::BoxNodeOptimization => None,
        CEOptimization::VectorAPIOptimization => Some("OptimizeVectorAPI"@),
        CEOptimization::ConstantBlinding => Some("BlindConstants"@),
    }
}

/// The name of the phase that performs an optimization.
pub open spec fn optimization_phase_type(o: CEOptimization) -> Seq<char> {
    match o {
        CEOptimization::Canonicalization => "CanonicalizerPhase"@,
        CEOptimization::Inlining => "InliningPhase"@,
        CEOptimization::DeadCodeElimination => "DeadCodeEliminationPhase"@,
        CEOptimization::DeoptimizeToGuard => "ConvertDeoptimizeToGuardPhase"@,
        CEOptimization::ConditionalElimination => "ConditionalEliminationPhase"@,
        CEOptimization::InstructionScheduling => "SchedulePhase"@,
        CEOptimization::FloatingReads => "FloatingReadPhase"@,
        CEOptimization::ReadElimination => "ReadEliminationPhase"@,
        CEOptimization::PartialEscapeAnalysis => "PartialEscapePhase"@,
        CEOptimization::LockElimination => "LockEliminationPhase"@,
        CEOptimization::SafepointElimination => "LoopSafepointEliminationPhase"@,
        CEOptimization::ExpressionReassociation => "ReassociationPhase"@,
        CEOptimization::DeoptimizationGrouping => "DeoptimizationGroupingPhase"@,
        CEOptimization::TrappingNullChecks => "UseTrappingNullChecksPhase"@,
        CEOptimization::FullLoopUnrolling => "LoopFullUnrollPhase"@,
        CEOptimization::SpeculativeGuardMovement => "SpeculativeGuardMovementPhase"@,
        CEOptimization::LoopPredication => "LoopPredicationPhase"@,
        CEOptimization::LoopPeeling => "LoopPeelingPhase"@,
        CEOptimization::LoopUnswitching => "LoopUnswitchingPhase"@,
        CEOptimization::PartialLoopUnrolling => "LoopPartialUnrollPhase"@,
        CEOptimization::BoxNodeOptimization => "BoxNodeOptimizationPhase"@,
        CEOptimization::VectorAPIOptimization => "VectorAPIExpansionPhase"@,
        CEOptimization::ConstantBlinding => "ConstantBlindingPhase"@,
    }
}

impl CEOptimization {
    /// The name of this optimization.
    pub fn name(&self) -> (r: &'static str)
        ensures
            r@ == optimization_name(*self),
    {
        match self {
            CEOptimization::Canonicalization => "Canonicalization",
            CEOptimization::Inlining => "Inlining",
            CEOptimization::DeadCodeElimination => "DeadCodeElimination",
            CEOptimization::DeoptimizeToGuard => "DeoptimizeToGuard",
            CEOptimization::ConditionalElimination => "ConditionalElimination",
            CEOptimization::InstructionScheduling => "InstructionScheduling",
            CEOptimization::FloatingReads => "FloatingReads",
            CEOptimization::ReadElimination => "ReadElimination",
            CEOptimization::PartialEscapeAnalysis => "PartialEscapeAnalysis",
            CEOptimization::LockElimination => "LockElimination",
            CEOptimization::SafepointElimination => "SafepointElimination",
            CEOptimization::ExpressionReassociation => "ExpressionReassociation",
            CEOptimization::DeoptimizationGrouping => "DeoptimizationGrouping",
            CEOptimization::TrappingNullChecks => "TrappingNullChecks",
            CEOptimization::FullLoopUnrolling => "FullLoopUnrolling",
            CEOptimization::SpeculativeGuardMovement => "SpeculativeGuardMovement",
            CEOptimization::LoopPredication => "LoopPredication",
            CEOptimization::LoopPeeling => "LoopPeeling",
            CEOptimization::LoopUnswitching => "LoopUnswitching",
            CEOptimization::PartialLoopUnrolling => "PartialLoopUnrolling",
            CEOptimization::BoxNodeOptimization => "BoxNodeOptimization",
            CEOptimization::VectorAPIOptimization => "VectorAPIOptimization",
            CEOptimization::ConstantBlinding => "ConstantBlinding",
        }
    }

    /// The option that enables this optimization, if any.
    pub fn get_option(&self) -> (r: Option<&'static str>)
        ensures
            match (r, optimization_option(*self)) {
                (Some(s), Some(t)) => s@ == t,
                (None, None) => true,
                _ => false,
            },
    {
        match self {
            CEOptimization::Canonicalization => None,
            CEOptimization::Inlining => Some("Inline"),
            CEOptimization::DeadCodeElimination => None,
            CEOptimization::DeoptimizeToGuard => Some("OptConvertDeoptsToGuards"),
            CEOptimization::ConditionalElimination => Some("ConditionalElimination"),
            CEOptimization::InstructionScheduling => None,
            CEOptimization::FloatingReads => Some("OptFloatingReads"),
            CEOptimization::ReadElimination => Some("OptReadElimination"),
            CEOptimization::PartialEscapeAnalysis => Some("PartialEscapeAnalysis"),
            CEOptimization::LockElimination => None,
            CEOptimization::SafepointElimination => None,
            CEOptimization::ExpressionReassociation => Some("ReassociateExpressions"),
            CEOptimization::DeoptimizationGrouping => Some("OptDeoptimizationGrouping"),
            CEOptimization::TrappingNullChecks => None,
            CEOptimization::FullLoopUnrolling => Some("FullUnroll"),
            CEOptimization::SpeculativeGuardMovement => Some("SpeculativeGuardMovement"),
            CEOptimization::LoopPredication => Some("LoopPredication"),
            CEOptimization::LoopPeeling => Some("LoopPeeling"),
            CEOptimization::LoopUnswitching => Some("LoopUnswitch"),
            CEOptimization::PartialLoopUnrolling => Some("PartialUnroll"),
            CEOptimization::BoxNodeOptimization => None,
            CEOptimization::VectorAPIOptimization => Some("OptimizeVectorAPI"),
            CEOptimization::ConstantBlinding => Some("BlindConstants"),
        }
    }

    /// The name of the phase that performs this optimization.
    pub fn get_phase_type(&self) -> (r: &'static str)
        ensures
            r@ == optimization_phase_type(*self),
    {
        match self {
            CEOptimization::Canonicalization => "CanonicalizerPhase",
            CEOptimization::Inlining => "InliningPhase",
            CEOptimization::DeadCodeElimination => "DeadCodeEliminationPhase",
            CEOptimization::DeoptimizeToGuard => "ConvertDeoptimizeToGuardPhase",
            CEOptimization::ConditionalElimination => "ConditionalEliminationPhase",
            CEOptimization::InstructionScheduling => "SchedulePhase",
            CEOptimization::FloatingReads => "FloatingReadPhase",
            CEOptimization::ReadElimination => "ReadEliminationPhase",
            CEOptimization::PartialEscapeAnalysis => "PartialEscapePhase",
            CEOptimization::LockElimination => "LockEliminationPhase",
            CEOptimization::SafepointElimination => "LoopSafepointEliminationPhase",
            CEOptimization::ExpressionReassociation => "ReassociationPhase",
            CEOptimization::DeoptimizationGrouping => "DeoptimizationGroupingPhase",
            CEOptimization::TrappingNullChecks => "UseTrappingNullChecksPhase",
            CEOptimization::FullLoopUnrolling => "LoopFullUnrollPhase",
            CEOptimization::SpeculativeGuardMovement => "SpeculativeGuardMovementPhase",
            CEOptimization::LoopPredication => "LoopPredicationPhase",
            CEOptimization::LoopPeeling => "LoopPeelingPhase",
            CEOptimization::LoopUnswitching => "LoopUnswitchingPhase",
            CEOptimization::PartialLoopUnrolling => "LoopPartialUnrollPhase",
            CEOptimization::BoxNodeOptimization => "BoxNodeOptimizationPhase",
            CEOptimization::VectorAPIOptimization => "VectorAPIExpansionPhase",
            CEOptimization::ConstantBlinding => "ConstantBlindingPhase",
        }
    }

}

} // verus!
