//! Modes and phases of the force-directed layout, the iteration limits of
//! each phase, and the text-to-speech provider choice.

use vstd::prelude::*;

use crate::strings::{chars_eq, chars_of};

verus! {

/// Where the layout is computed.
#[derive(Debug, Clone, Copy, PartialEq, Eq, Structural)]
pub enum SimulationMode {
    /// GPU-accelerated computation on the server.
    Remote,
    /// Computation on the client's GPU.
    GPU,
    /// Computation on the client's CPU.
    Local,
}

/// The phase of the layout.
#[derive(Debug, Clone, Copy, PartialEq, Eq, Structural)]
pub enum SimulationPhase {
    /// Heavy computation for the first layout.
    Initial,
    /// Light computation for real-time updates.
    Interactive,
}

/// The text-to-speech backend.
#[derive(Debug, Clone, Copy, PartialEq, Eq, Structural)]
pub enum TTSProvider {
    OpenAI,
    Sonata,
}

/// The mode a client asks for by name; unknown names fall back to `Remote`.
pub open spec fn mode_named(name: Seq<char>) -> SimulationMode {
    if name == "gpu"@ {
        SimulationMode::GPU
    } else if name == "local"@ {
        SimulationMode::Local
    } else {
        SimulationMode::Remote
    }
}

/// Iterations allowed in a phase: 200 to 500 for the initial layout, 1 to
/// 10 for interactive updates.
pub open spec fn iteration_bounds(is_initial: bool) -> (u32, u32) {
    if is_initial {
        (200, 500)
    } else {
        (1, 10)
    }
}

/// `iterations` clamped to the bounds of its phase.
pub open spec fn clamped_iterations(iterations: u32, is_initial: bool) -> u32 {
    let (lo, hi) = iteration_bounds(is_initial);
    if iterations < lo {
        lo
    } else if iterations > hi {
        hi
    } else {
        iterations
    }
}

impl SimulationMode {
    /// The mode named `remote`, `gpu` or `local`; any other name gives
    /// `Remote`.
    pub fn from_name(name: &str) -> (res: SimulationMode)
        ensures
            res == mode_named(name@),
    {
        let n = chars_of(name);
        let gpu = chars_of("gpu");
        let local = chars_of("local");
        if chars_eq(&n, &gpu) {
            SimulationMode::GPU
        } else if chars_eq(&n, &local) {
            SimulationMode::Local
        } else {
            SimulationMode::Remote
        }
    }

    /// Whether the mode computes on a GPU (`Remote` or `GPU`).
    pub fn gpu_enabled(&self) -> (res: bool)
        ensures
            res == (*self == SimulationMode::Remote || *self == SimulationMode::GPU),
    {
        match self {
            SimulationMode::Remote => true,
            SimulationMode::GPU => true,
            SimulationMode::Local => false,
        }
    }
}

impl SimulationPhase {
    /// Whether this is the initial layout.
    pub fn is_initial(&self) -> (res: bool)
        ensures
            res == (*self == SimulationPhase::Initial),
    {
        match self {
            SimulationPhase::Initial => true,
            SimulationPhase::Interactive => false,
        }
    }
}

/// Clamps an iteration count to the bounds of its phase: 200 to 500 for the
/// initial layout, 1 to 10 for interactive updates.
pub fn clamp_iterations(iterations: u32, is_initial: bool) -> (res: u32)
    ensures
        res == clamped_iterations(iterations, is_initial),
        iteration_bounds(is_initial).0 <= res <= iteration_bounds(is_initial).1,
{
    let (lo, hi): (u32, u32) = if is_initial {
        (200, 500)
    } else {
        (1, 10)
    };
    if iterations < lo {
        lo
    } else if iterations > hi {
        hi
    } else {
        iterations
    }
}

/// The iteration count of a layout built from settings: the configured
/// count for the initial layout, 5 for interactive updates, clamped to the
/// phase's bounds.
pub fn config_iterations(configured: u32, phase: SimulationPhase) -> (res: u32)
    ensures
        res == clamped_iterations(
            if phase == SimulationPhase::Initial {
                configured
            } else {
                5
            },
            phase == SimulationPhase::Initial,
        ),
{
    let is_initial = phase.is_initial();
    clamp_iterations(if is_initial { configured } else { 5 }, is_initial)
}

/// Clamping twice is clamping once, and counts within the bounds are kept.
pub proof fn lemma_clamp_iterations_idempotent(iterations: u32, is_initial: bool)
    ensures
        clamped_iterations(clamped_iterations(iterations, is_initial), is_initial)
            == clamped_iterations(iterations, is_initial),
        iteration_bounds(is_initial).0 <= iterations <= iteration_bounds(is_initial).1
            ==> clamped_iterations(iterations, is_initial) == iterations,
{
}

impl TTSProvider {
    /// `OpenAI` when `use_openai` holds, `Sonata` otherwise.
    pub fn from_use_openai(use_openai: bool) -> (res: TTSProvider)
        ensures
            res == (if use_openai {
                TTSProvider::OpenAI
            } else {
                TTSProvider::Sonata
            }),
    {
        if use_openai {
            TTSProvider::OpenAI
        } else {
            TTSProvider::Sonata
        }
    }

    /// Whether a chat message's `tts_provider` field selects OpenAI: it is
    /// exactly `openai`.
    pub fn is_openai_name(name: &str) -> (res: bool)
        ensures
            res == (name@ == "openai"@),
    {
        let n = chars_of(name);
        let o = chars_of("openai");
        chars_eq(&n, &o)
    }
}

} // verus!
