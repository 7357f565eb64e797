//! The frame driver: stage ordering, frame context, staging ring, and the
//! whole simulation state threaded through one frame.
//!
//! The driver owns the agent store and the trail field and runs the fixed
//! stage order every frame: agent update, trail post-process, copy, render,
//! submit. Each per-frame computation is a pure function of the prior
//! state, the frame delta and the supplied random words, which is what
//! makes a run reproducible.

use vstd::prelude::*;
use crate::params::{Params, MAX_DELTA_MS};
use crate::field::{TrailField, total_of};
use crate::agent::{Agent, spec_agent_pass, agent_update_pass};
use crate::post::{ImageSurface, Texel, ALPHA_OPAQUE, spec_post_field, post_process_pass};
use crate::rng::random_words;

verus! {

/// Where the frame driver stands inside one frame.
#[derive(PartialEq, Eq, Structural, Clone, Copy, Debug)]
pub enum Phase {
    /// Between frames.
    Idle,
    /// The agent update stage is in flight.
    AgentPhase,
    /// The trail post-process stage is in flight.
    PostProcessPhase,
    /// The image surface is being copied into the sampled texture.
    CopyPhase,
    /// The full-field draw is in flight.
    RenderPhase,
    /// The frame's work has been submitted.
    Submitted,
}

/// The strictly sequential stage order, re-entered every frame.
pub open spec fn spec_next_phase(p: Phase) -> Phase {
    match p {
        Phase::Idle => Phase::AgentPhase,
        Phase::AgentPhase => Phase::PostProcessPhase,
        Phase::PostProcessPhase => Phase::CopyPhase,
        Phase::CopyPhase => Phase::RenderPhase,
        Phase::RenderPhase => Phase::Submitted,
        Phase::Submitted => Phase::Idle,
    }
}

/// Per-frame scalar state, rebuilt every frame.
#[derive(PartialEq, Eq, Structural, Clone, Copy, Debug)]
pub struct FrameContext {
    /// Index of the frame being built.
    pub frame_index: u64,
    /// Wall-clock time since the previous frame, in milliseconds.
    pub delta_ms: u32,
}

/// The stage sequencer: one counter and one phase, advanced one transition
/// at a time. Each transition is taken only after the previous stage's
/// writes are complete; the frame index advances exactly when a submitted
/// frame returns to idle.
pub struct FrameDriver {
    /// Current position in the stage order.
    pub phase: Phase,
    /// Number of frames completed.
    pub frame_index: u64,
}

impl FrameDriver {
    /// A driver at rest before its first frame.
    pub fn new() -> (r: FrameDriver)
        ensures
            r.phase == Phase::Idle,
            r.frame_index == 0,
    {
        FrameDriver { phase: Phase::Idle, frame_index: 0 }
    }

    /// Take the single next transition of the stage order. The frame index
    /// increments exactly on the transition out of `Submitted`.
    pub fn advance(&mut self)
        requires
            old(self).frame_index < u64::MAX,
        ensures
            final(self).phase == spec_next_phase(old(self).phase),
            final(self).frame_index == if old(self).phase == Phase::Submitted {
                old(self).frame_index + 1
            } else {
                old(self).frame_index as int
            },
    {
        match self.phase {
            Phase::Idle => {
                self.phase = Phase::AgentPhase;
            }
            Phase::AgentPhase => {
                self.phase = Phase::PostProcessPhase;
            }
            Phase::PostProcessPhase => {
                self.phase = Phase::CopyPhase;
            }
            Phase::CopyPhase => {
                self.phase = Phase::RenderPhase;
            }
            Phase::RenderPhase => {
                self.phase = Phase::Submitted;
            }
            Phase::Submitted => {
                self.phase = Phase::Idle;
                self.frame_index = self.frame_index + 1;
            }
        }
    }

    /// The frame context to push before the next agent update.
    pub fn context(&self, delta_ms: u32) -> (c: FrameContext)
        ensures
            c.frame_index == self.frame_index,
            c.delta_ms == delta_ms,
    {
        FrameContext { frame_index: self.frame_index, delta_ms }
    }
}

/// A bounded ring of transient staging regions. A region is acquired for
/// one frame's upload and released when the device has consumed it; when
/// every region is in flight the caller must wait before writing.
pub struct StagingRing {
    /// One flag per region: true while the region is in flight.
    pub in_use: Vec<bool>,
}

impl StagingRing {
    /// At least one region.
    pub open spec fn wf(self) -> bool {
        self.in_use@.len() >= 1
    }

    /// A ring of `n` free regions.
    pub fn new(n: usize) -> (r: StagingRing)
        requires
            1 <= n,
        ensures
            r.wf(),
            r.in_use@.len() == n,
            forall|i: int| 0 <= i < n ==> !r.in_use@[i],
    {
        let mut v: Vec<bool> = Vec::new();
        let mut i: usize = 0;
        while i < n
            invariant
                i <= n,
                v@.len() == i,
                forall|j: int| 0 <= j < i ==> !v@[j],
            decreases n - i,
        {
            v.push(false);
            i = i + 1;
        }
        StagingRing { in_use: v }
    }

    /// Claim a free region. Returns its index and marks it in flight, or
    /// nothing exactly when every region is in flight (the caller must
    /// then wait for a release).
    pub fn acquire(&mut self) -> (r: Option<usize>)
        requires
            old(self).wf(),
        ensures
            final(self).wf(),
            final(self).in_use@.len() == old(self).in_use@.len(),
            match r {
                Some(i) => {
                    &&& i < old(self).in_use@.len()
                    &&& !old(self).in_use@[i as int]
                    &&& forall|j: int| 0 <= j < i ==> old(self).in_use@[j]
                    &&& final(self).in_use@ == old(self).in_use@.update(i as int, true)
                },
                None => {
                    &&& final(self).in_use@ == old(self).in_use@
                    &&& forall|j: int| 0 <= j < old(self).in_use@.len()
                        ==> old(self).in_use@[j]
                },
            },
    {
        let n: usize = self.in_use.len();
        let mut i: usize = 0;
        while i < n
            invariant
                self.wf(),
                n == self.in_use@.len(),
                i <= n,
                self.in_use@ == old(self).in_use@,
                forall|j: int| 0 <= j < i ==> self.in_use@[j],
            decreases n - i,
        {
            if !self.in_use[i] {
                self.in_use.set(i, true);
                return Some(i);
            }
            i = i + 1;
        }
        None
    }

    /// Return a consumed region to the pool.
    pub fn release(&mut self, i: usize)
        requires
            old(self).wf(),
            i < old(self).in_use@.len(),
            old(self).in_use@[i as int],
        ensures
            final(self).wf(),
            final(self).in_use@ == old(self).in_use@.update(i as int, false),
    {
        self.in_use.set(i, false);
    }
}

/// An agent spawned from three random words: position uniform over the
/// field, heading uniform over the circle.
pub open spec fn spec_spawn(p: Params, rx: u32, ry: u32, rh: u32) -> Agent {
    Agent {
        x: ((rx as int) % p.span_x()) as u32,
        y: ((ry as int) % p.span_y()) as u32,
        heading: ((rh as int) % 360) as u32,
    }
}

/// The initial population: agent `i` is spawned from words `3i..3i+3`.
pub open spec fn spec_spawn_agents(p: Params, rands: Seq<u32>) -> Seq<Agent> {
    Seq::new(p.population as nat,
        |i: int| spec_spawn(p, rands[3 * i], rands[3 * i + 1], rands[3 * i + 2]))
}

/// One whole frame's simulation work: the agent pass over the prior field,
/// then the post-process pass over its result. Returns the new agents and
/// the new field.
pub open spec fn spec_frame(
    p: Params, agents: Seq<Agent>, f: Seq<u64>, delta: int, rands: Seq<u32>,
) -> (Seq<Agent>, Seq<u64>) {
    let pass = spec_agent_pass(p, agents, f, delta, rands, p.population as int);
    (pass.0, spec_post_field(pass.1, p.width as int, p.height as int,
        p.decay_num as int, p.decay_den as int))
}

/// A run of several frames: fold [`spec_frame`] over a sequence of
/// per-frame inputs, each a delta and the frame's random words.
pub open spec fn spec_run(
    p: Params, agents: Seq<Agent>, f: Seq<u64>, inputs: Seq<(u32, Seq<u32>)>,
) -> (Seq<Agent>, Seq<u64>)
    decreases inputs.len(),
{
    if inputs.len() == 0 {
        (agents, f)
    } else {
        let prev = spec_run(p, agents, f, inputs.drop_last());
        spec_frame(p, prev.0, prev.1, inputs.last().0 as int, inputs.last().1)
    }
}

/// Determinism modulo randomness: two runs from the same initial agents and
/// field, fed the same deltas and the same random words frame by frame, end
/// in exactly the same state. Every frame is a pure function of its inputs.
pub proof fn lemma_determinism(
    p: Params,
    a1: Seq<Agent>, f1: Seq<u64>, in1: Seq<(u32, Seq<u32>)>,
    a2: Seq<Agent>, f2: Seq<u64>, in2: Seq<(u32, Seq<u32>)>,
)
    requires
        a1 == a2,
        f1 == f2,
        in1 == in2,
    ensures
        spec_run(p, a1, f1, in1) == spec_run(p, a2, f2, in2),
{
}

/// The simulation state the frame driver owns and threads through the
/// pipeline: the parameter block, the agent store and the trail field.
pub struct Simulation {
    /// Immutable simulation constants.
    pub params: Params,
    /// Per-agent state, mutated in place once per frame.
    pub agents: Vec<Agent>,
    /// The shared pheromone map.
    pub field: TrailField,
}

impl Simulation {
    /// Valid parameters, a matching field, and a full, in-bounds population.
    pub open spec fn wf(self) -> bool {
        &&& self.params.wf()
        &&& self.field.wf()
        &&& self.field.width == self.params.width
        &&& self.field.height == self.params.height
        &&& self.agents@.len() == self.params.population
        &&& forall|i: int| 0 <= i < self.agents@.len() ==> self.agents@[i].wf(self.params)
    }

    /// A simulation spawned from the given random words: every agent placed
    /// uniformly inside the field with a uniform heading, the trail field
    /// all zero.
    pub fn new(params: Params, rands: &Vec<u32>) -> (r: Simulation)
        requires
            params.wf(),
            rands@.len() == 3 * params.population,
        ensures
            r.wf(),
            r.params == params,
            r.agents@ == spec_spawn_agents(params, rands@),
            forall|i: int| 0 <= i < r.field@.len() ==> r.field@[i] == 0,
            total_of(r.field@) == 0,
    {
        let pop: usize = params.population as usize;
        let mut agents: Vec<Agent> = Vec::new();
        let mut i: usize = 0;
        let span_x: u32 = params.width * 1000;
        let span_y: u32 = params.height * 1000;
        while i < pop
            invariant
                params.wf(),
                pop == params.population,
                rands@.len() == 3 * params.population,
                span_x == params.span_x(),
                span_y == params.span_y(),
                i <= pop,
                agents@.len() == i,
                forall|j: int| 0 <= j < i
                    ==> agents@[j] == spec_spawn_agents(params, rands@)[j],
                forall|j: int| 0 <= j < i ==> #[trigger] agents@[j].wf(params),
            decreases pop - i,
        {
            let a = Agent {
                x: rands[3 * i] % span_x,
                y: rands[3 * i + 1] % span_y,
                heading: rands[3 * i + 2] % 360,
            };
            agents.push(a);
            i = i + 1;
        }
        let field = TrailField::new(params.width, params.height);
        proof {
            crate::field::lemma_total_of_zeros(field@);
            assert(agents@ =~= spec_spawn_agents(params, rands@));
        }
        Simulation { params, agents, field }
    }

    /// A simulation spawned from freshly drawn random words.
    pub fn new_random(params: Params) -> (r: Simulation)
        requires
            params.wf(),
        ensures
            r.wf(),
            r.params == params,
            forall|i: int| 0 <= i < r.field@.len() ==> r.field@[i] == 0,
            total_of(r.field@) == 0,
    {
        let words = random_words(3 * (params.population as usize));
        Simulation::new(params, &words)
    }

    /// One frame's simulation work: the agent update pass, then the trail
    /// post-process pass, returning the image surface for presentation.
    /// The new state is exactly [`spec_frame`] of the old state and this
    /// frame's inputs; the image carries the new field's intensity in every
    /// color channel at full alpha.
    pub fn step_frame(&mut self, delta_ms: u32, rands: &Vec<u32>) -> (img: ImageSurface)
        requires
            old(self).wf(),
            delta_ms <= MAX_DELTA_MS,
            rands@.len() == old(self).params.population,
            total_of(old(self).field@)
                + old(self).params.population * old(self).params.deposit <= u64::MAX,
        ensures
            final(self).wf(),
            final(self).params == old(self).params,
            final(self).agents@ == spec_frame(old(self).params, old(self).agents@,
                old(self).field@, delta_ms as int, rands@).0,
            final(self).field@ == spec_frame(old(self).params, old(self).agents@,
                old(self).field@, delta_ms as int, rands@).1,
            img.wf(),
            img.width == old(self).params.width,
            img.height == old(self).params.height,
            forall|i: int| 0 <= i < img.texels@.len()
                ==> #[trigger] img.texels@[i] == (Texel {
                    r: final(self).field@[i],
                    g: final(self).field@[i],
                    b: final(self).field@[i],
                    a: ALPHA_OPAQUE,
                }),
    {
        let p: Params = self.params;
        agent_update_pass(&p, &mut self.agents, &mut self.field, delta_ms, rands);
        let (field2, img) = post_process_pass(&self.field, &p);
        self.field = field2;
        img
    }
}

} // verus!
