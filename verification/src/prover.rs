//! The prover driver's verified decisions. The polynomial commitment
//! backend is an external collaborator: it commits the four tables,
//! mixes them into the transcript channel and runs the low-degree
//! argument. What this crate pins down is everything the driver decides:
//! the trace size from the step count, and the fixed protocol order the
//! backend calls must follow — preprocessed, main, then the lookup
//! challenges and the interaction table, then the program table, then the
//! backend's proof.

use vstd::prelude::*;

use vstd::arithmetic::power2::pow2;

verus! {

/// The stages of one proof, in protocol order.
#[derive(Clone, Copy, Debug, PartialEq, Eq, Structural)]
pub enum ProverStage {
    Setup,
    PreprocessedCommitted,
    MainCommitted,
    InteractionCommitted,
    ProgramCommitted,
    Proved,
}

/// The outside work each stage hands to the backend.
#[derive(Clone, Copy, Debug, PartialEq, Eq, Structural)]
pub enum ProverAction {
    CommitPreprocessed,
    CommitMain,
    DrawLookupsAndCommitInteraction,
    CommitProgram,
    InvokeBackend,
    Done,
}

/// The fixed protocol order: what a stage's action is and which stage
/// follows it.
pub open spec fn spec_next_stage(s: ProverStage) -> (ProverStage, ProverAction) {
    match s {
        ProverStage::Setup => (ProverStage::PreprocessedCommitted, ProverAction::CommitPreprocessed),
        ProverStage::PreprocessedCommitted => (ProverStage::MainCommitted, ProverAction::CommitMain),
        ProverStage::MainCommitted => (
            ProverStage::InteractionCommitted,
            ProverAction::DrawLookupsAndCommitInteraction,
        ),
        ProverStage::InteractionCommitted => (
            ProverStage::ProgramCommitted,
            ProverAction::CommitProgram,
        ),
        ProverStage::ProgramCommitted => (ProverStage::Proved, ProverAction::InvokeBackend),
        ProverStage::Proved => (ProverStage::Proved, ProverAction::Done),
    }
}

/// Advances the protocol by one stage, yielding the backend work owed.
/// The driver in front of the backend performs the action and feeds the
/// next stage back; the order is fixed and the verifier mirrors it.
pub fn next_stage(s: ProverStage) -> (r: (ProverStage, ProverAction))
    ensures
        r == spec_next_stage(s),
{
    match s {
        ProverStage::Setup => (ProverStage::PreprocessedCommitted, ProverAction::CommitPreprocessed),
        ProverStage::PreprocessedCommitted => (ProverStage::MainCommitted, ProverAction::CommitMain),
        ProverStage::MainCommitted => (
            ProverStage::InteractionCommitted,
            ProverAction::DrawLookupsAndCommitInteraction,
        ),
        ProverStage::InteractionCommitted => (
            ProverStage::ProgramCommitted,
            ProverAction::CommitProgram,
        ),
        ProverStage::ProgramCommitted => (ProverStage::Proved, ProverAction::InvokeBackend),
        ProverStage::Proved => (ProverStage::Proved, ProverAction::Done),
    }
}

/// The trace's logarithmic size for a step count: the least power of two
/// holding every real step.
pub fn log_size_for(num_steps: usize) -> (r: u32)
    ensures
        pow2(r as nat) >= num_steps,
        r > 0 ==> pow2((r - 1) as nat) < num_steps,
        r <= 64,
{
    let mut r: u32 = 0;
    let mut p: u128 = 1;
    proof {
        vstd::arithmetic::power2::lemma2_to64();
    }
    while p < num_steps as u128
        invariant
            p == pow2(r as nat),
            p >= 1,
            r <= 64,
            r > 0 ==> pow2((r - 1) as nat) < num_steps,
        decreases 64 - r,
    {
        proof {
            vstd::arithmetic::power2::lemma2_to64_rest();
            assert(r < 64) by {
                if r == 64 {
                    assert(pow2(64) == 0x10000000000000000) by {
                        vstd::arithmetic::power2::lemma2_to64_rest();
                    }
                }
            }
            vstd::arithmetic::power2::lemma_pow2_unfold((r + 1) as nat);
            assert(pow2((r + 1) as nat) == 2 * pow2(r as nat));
            if r as nat + 1 > 64 {
                vstd::arithmetic::power2::lemma2_to64();
                vstd::arithmetic::power2::lemma_pow2_strictly_increases(64, r as nat + 1);
                assert(false);
            }
            vstd::arithmetic::power2::lemma2_to64();
            if r < 64 {
                vstd::arithmetic::power2::lemma_pow2_strictly_increases(r as nat, 64);
            }
        }
        p = p * 2;
        r = r + 1;
    }
    r
}

/// The machine's prover: the composed chips, driven against the backend
/// in the fixed protocol order. The backend calls themselves are the
/// external collaborator's; `next_stage` and `log_size_for` carry every
/// decision the driver makes around them.
pub struct Machine {}

impl Machine {
    /// The ordered backend actions of one whole proof, from setup to the
    /// backend invocation.
    pub fn proof_schedule() -> (r: Vec<ProverAction>)
        ensures
            r@ == seq![
                ProverAction::CommitPreprocessed,
                ProverAction::CommitMain,
                ProverAction::DrawLookupsAndCommitInteraction,
                ProverAction::CommitProgram,
                ProverAction::InvokeBackend,
            ],
    {
        let mut out: Vec<ProverAction> = Vec::new();
        let (s1, a1) = next_stage(ProverStage::Setup);
        out.push(a1);
        let (s2, a2) = next_stage(s1);
        out.push(a2);
        let (s3, a3) = next_stage(s2);
        out.push(a3);
        let (s4, a4) = next_stage(s3);
        out.push(a4);
        let (s5, a5) = next_stage(s4);
        out.push(a5);
        proof {
            assert(s5 == ProverStage::Proved);
            assert(out@ =~= seq![
                ProverAction::CommitPreprocessed,
                ProverAction::CommitMain,
                ProverAction::DrawLookupsAndCommitInteraction,
                ProverAction::CommitProgram,
                ProverAction::InvokeBackend,
            ]);
        }
        out
    }
}

} // verus!
