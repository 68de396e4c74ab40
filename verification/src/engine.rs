use vstd::prelude::*;
use crate::errors::Error;
use crate::rng::{SampleRng, rng_advance};
use crate::sampling::{apply_repeat_penalty, argmax, penalized_at, PENALTY_LIMIT, SCORE_LIMIT};
use crate::nucleus::{nucleus_choice, VOCAB_LIMIT, WEIGHT_LIMIT};

verus! {

/// Immutable parameters of one generation run, fixed before the loop
/// starts. Fractional factors are fixed-point thousandths.
#[derive(Clone, Copy, Debug, PartialEq, Eq, Structural)]
pub struct Config {
    /// Seed of the run's random generator.
    pub seed: u64,
    /// Sampling temperature in thousandths; unset or zero selects greedy.
    pub temperature: Option<u32>,
    /// Nucleus cutoff in thousandths of the probability mass, in (0, 1000].
    pub top_p: Option<u32>,
    /// Repeat-penalty factor in thousandths; 1000 disables the penalty.
    pub repeat_penalty: u32,
    /// How many trailing context tokens the penalty window holds.
    pub repeat_last_n: usize,
    /// How many tokens the run may generate.
    pub sample_len: usize,
    /// The end-of-sequence token: accepted but never emitted.
    pub eos_token: u32,
    /// An optional second stop token, for backends with a fixed extra stop.
    pub stop_token: Option<u32>,
}

impl Config {
    /// The ranges every run must respect.
    pub open spec fn valid(&self) -> bool {
        &&& 1 <= self.repeat_penalty <= PENALTY_LIMIT
        &&& match self.top_p {
            Option::Some(p) => 1 <= p <= 1000,
            Option::None => true,
        }
    }

    /// Whether the run selects tokens greedily: no temperature, or zero.
    pub open spec fn greedy(&self) -> bool {
        match self.temperature {
            Option::None => true,
            Option::Some(t) => t == 0,
        }
    }

    /// Exec counterpart of `greedy`.
    pub fn is_greedy(&self) -> (r: bool)
        ensures
            r == self.greedy(),
    {
        match self.temperature {
            Option::None => true,
            Option::Some(t) => t == 0,
        }
    }

    /// The nucleus cutoff actually used: an unset cutoff keeps the whole
    /// distribution, which the full share of 1000 thousandths expresses.
    pub open spec fn top_p_eff(&self) -> u32 {
        match self.top_p {
            Option::Some(p) => p,
            Option::None => 1000u32,
        }
    }

    /// Whether `t` ends the run when sampled.
    pub open spec fn is_stop(&self, t: u32) -> bool {
        t == self.eos_token || self.stop_token == Option::Some(t)
    }

    /// Exec counterpart of `is_stop`.
    pub fn stops(&self, t: u32) -> (r: bool)
        ensures
            r == self.is_stop(t),
    {
        t == self.eos_token || match self.stop_token {
            Option::Some(s) => t == s,
            Option::None => false,
        }
    }
}

/// Where a run stands.
#[derive(Clone, Copy, Debug, PartialEq, Eq, Structural)]
pub enum Phase {
    /// The prompt is the pending context: the first forward pass is owed.
    Priming,
    /// Tokens are being generated: a forward pass over the newest token is
    /// owed.
    Decoding,
    /// Penalized scores went out; a weight vector to draw from is owed.
    Weighing,
    /// The run is over.
    Terminated,
}

/// What one interaction with the machine asks of the caller.
#[derive(Debug)]
pub enum Step {
    /// A token was accepted: decode it and emit its text.
    Emit(u32),
    /// A stop token was accepted: emit nothing; the run is over.
    Stop(u32),
    /// Penalized scores: turn them into sampling weights and hand the
    /// weights back.
    NeedWeights(Vec<i64>),
}

/// The score vector after the repeat penalty, as mathematical integers.
pub open spec fn pen_seq(scores: Seq<i64>, tokens: Seq<u32>, cfg: Config) -> Seq<int> {
    Seq::new(
        scores.len(),
        |i: int| penalized_at(scores, tokens, cfg.repeat_penalty as int, cfg.repeat_last_n as int, i),
    )
}

/// First maximum of an integer sequence: the greedy choice, lowest index
/// on ties.
pub open spec fn is_first_max_int(s: Seq<int>, i: int) -> bool {
    &&& 0 <= i < s.len()
    &&& forall|j: int| 0 <= j < s.len() ==> s[j] <= s[i]
    &&& forall|j: int| 0 <= j < i ==> s[j] < s[i]
}

/// The token a greedy step picks from raw scores: the first maximum of the
/// penalized scores.
pub open spec fn greedy_choice(scores: Seq<i64>, tokens: Seq<u32>, cfg: Config, ix: int) -> bool {
    is_first_max_int(pen_seq(scores, tokens, cfg), ix)
}

/// How accepting token `t` moves a machine from `pre` to `post`: the
/// context grows by exactly that token, and the run ends on a stop token
/// or an exhausted budget. A stop token ends the run without being
/// counted: the generated count is the number of emitted tokens.
pub open spec fn accept_post(pre: Generation, post: Generation, t: u32) -> bool {
    &&& post.tokens@ == pre.tokens@.push(t)
    &&& post.generated == (if pre.cfg.is_stop(t) {
        pre.generated as int
    } else {
        pre.generated + 1
    })
    &&& post.phase == (if pre.cfg.is_stop(t) || pre.generated + 1 == pre.cfg.sample_len {
        Phase::Terminated
    } else {
        Phase::Decoding
    })
}

/// One generation run: the growing context, the budget spent so far, the
/// run's random generator and the phase of the loop protocol.
pub struct Generation {
    pub cfg: Config,
    pub tokens: Vec<u32>,
    pub prompt_len: usize,
    pub generated: usize,
    pub rng: SampleRng,
    pub phase: Phase,
}

impl Generation {
    /// The run invariant: a nonempty prompt, a context that is exactly the
    /// prompt plus the accepted tokens, and a generated count that never
    /// passes the budget; a live run still has budget.
    pub open spec fn wf(&self) -> bool {
        &&& self.cfg.valid()
        &&& self.prompt_len >= 1
        &&& (self.tokens@.len() == self.prompt_len + self.generated || (self.phase
            == Phase::Terminated && self.tokens@.len() == self.prompt_len + self.generated + 1))
        &&& self.generated <= self.cfg.sample_len
        &&& (self.phase != Phase::Terminated ==> self.generated < self.cfg.sample_len)
    }

    /// Starts a run over an encoded prompt. Rejects an empty prompt with
    /// `EmptyPrompt` before any forward pass is requested; otherwise the
    /// context is the prompt, nothing is generated yet, the generator is
    /// seeded from the configuration, and the first forward pass is owed
    /// (unless the budget is zero, in which case the run is already over).
    pub fn new(prompt: Vec<u32>, cfg: Config) -> (r: Result<Generation, Error>)
        requires
            cfg.valid(),
        ensures
            (prompt@.len() == 0) <==> (r matches Err(_)),
            match r {
                Result::Err(e) => e == Error::EmptyPrompt,
                Result::Ok(g) => {
                    &&& g.wf()
                    &&& g.cfg == cfg
                    &&& g.tokens@ == prompt@
                    &&& g.prompt_len == prompt@.len()
                    &&& g.generated == 0
                    &&& g.rng.state_spec() == cfg.seed
                    &&& g.phase == (if cfg.sample_len == 0 {
                        Phase::Terminated
                    } else {
                        Phase::Priming
                    })
                },
            },
    {
        if prompt.len() == 0 {
            return Err(Error::EmptyPrompt);
        }
        let prompt_len: usize = prompt.len();
        let phase: Phase = if cfg.sample_len == 0 {
            Phase::Terminated
        } else {
            Phase::Priming
        };
        Ok(Generation { rng: SampleRng::new(cfg.seed), cfg, tokens: prompt, prompt_len, generated: 0, phase })
    }

    /// The context window the next forward pass is owed: the whole prompt
    /// while priming, the single newest token while decoding, nothing when
    /// the machine waits for weights or the run is over.
    pub fn context_window(&self) -> (r: Option<Vec<u32>>)
        requires
            self.wf(),
        ensures
            match r {
                Option::Some(w) => (self.phase == Phase::Priming && w@ == self.tokens@) || (
                self.phase == Phase::Decoding && w@ == seq![
                    self.tokens@[self.tokens@.len() - 1],
                ]),
                Option::None => self.phase == Phase::Weighing || self.phase == Phase::Terminated,
            },
    {
        match self.phase {
            Phase::Priming => {
                let mut w: Vec<u32> = Vec::new();
                let len: usize = self.tokens.len();
                let mut i: usize = 0;
                while i < len
                    invariant
                        len == self.tokens@.len(),
                        i <= len,
                        w@ == self.tokens@.subrange(0, i as int),
                    decreases len - i,
                {
                    w.push(self.tokens[i]);
                    proof {
                        assert(w@ =~= self.tokens@.subrange(0, i + 1));
                    }
                    i = i + 1;
                }
                proof {
                    assert(w@ =~= self.tokens@);
                }
                Some(w)
            },
            Phase::Decoding => {
                let last: u32 = self.tokens[self.tokens.len() - 1];
                let w: Vec<u32> = vec![last];
                proof {
                    assert(w@ =~= seq![self.tokens@[self.tokens@.len() - 1]]);
                }
                Some(w)
            },
            Phase::Weighing => None,
            Phase::Terminated => None,
        }
    }

    /// Appends an accepted token and charges the budget; decides whether
    /// the run goes on.
    fn accept_token(&mut self, t: u32) -> (r: Step)
        requires
            old(self).wf(),
            old(self).generated < old(self).cfg.sample_len,
            old(self).tokens@.len() == old(self).prompt_len + old(self).generated,
        ensures
            final(self).wf(),
            final(self).cfg == old(self).cfg,
            final(self).prompt_len == old(self).prompt_len,
            final(self).rng == old(self).rng,
            accept_post(*old(self), *final(self), t),
            r == (if old(self).cfg.is_stop(t) {
                Step::Stop(t)
            } else {
                Step::Emit(t)
            }),
    {
        self.tokens.push(t);
        let stop: bool = self.cfg.stops(t);
        if !stop {
            self.generated = self.generated + 1;
        }
        if stop || self.generated == self.cfg.sample_len {
            self.phase = Phase::Terminated;
        } else {
            self.phase = Phase::Decoding;
        }
        if stop {
            Step::Stop(t)
        } else {
            Step::Emit(t)
        }
    }

    /// Feeds the machine the score vector of the forward pass it asked
    /// for. The scores are penalized over the trailing window of the full
    /// context; a greedy run then accepts the first maximum, while a
    /// sampled run hands the penalized scores back and waits for weights.
    /// Fails with `Sampling` exactly when a greedy run meets an empty
    /// score vector.
    pub fn provide_scores(&mut self, scores: Vec<i64>) -> (r: Result<Step, Error>)
        requires
            old(self).wf(),
            old(self).phase == Phase::Priming || old(self).phase == Phase::Decoding,
            scores@.len() <= VOCAB_LIMIT,
            forall|i: int|
                0 <= i < scores@.len() ==> -SCORE_LIMIT <= #[trigger] scores@[i] <= SCORE_LIMIT,
        ensures
            final(self).wf(),
            final(self).cfg == old(self).cfg,
            final(self).prompt_len == old(self).prompt_len,
            (r matches Err(_)) <==> (old(self).cfg.greedy() && scores@.len() == 0),
            match r {
                Result::Err(e) => {
                    &&& e == Error::Sampling
                    &&& final(self).phase == Phase::Terminated
                    &&& final(self).tokens@ == old(self).tokens@
                    &&& final(self).generated == old(self).generated
                    &&& final(self).rng == old(self).rng
                },
                Result::Ok(step) => match step {
                    Step::Emit(t) => {
                        &&& old(self).cfg.greedy()
                        &&& greedy_choice(scores@, old(self).tokens@, old(self).cfg, t as int)
                        &&& !old(self).cfg.is_stop(t)
                        &&& accept_post(*old(self), *final(self), t)
                        &&& final(self).rng == old(self).rng
                    },
                    Step::Stop(t) => {
                        &&& old(self).cfg.greedy()
                        &&& greedy_choice(scores@, old(self).tokens@, old(self).cfg, t as int)
                        &&& old(self).cfg.is_stop(t)
                        &&& accept_post(*old(self), *final(self), t)
                        &&& final(self).rng == old(self).rng
                    },
                    Step::NeedWeights(v) => {
                        &&& !old(self).cfg.greedy()
                        &&& v@.len() == scores@.len()
                        &&& (forall|i: int|
                            0 <= i < v@.len() ==> #[trigger] v@[i] as int == pen_seq(
                                scores@,
                                old(self).tokens@,
                                old(self).cfg,
                            )[i])
                        &&& final(self).phase == Phase::Weighing
                        &&& final(self).tokens@ == old(self).tokens@
                        &&& final(self).generated == old(self).generated
                        &&& final(self).rng == old(self).rng
                    },
                },
            },
    {
        let pen: Vec<i64> = apply_repeat_penalty(
            &scores,
            self.cfg.repeat_penalty,
            &self.tokens,
            self.cfg.repeat_last_n,
        );
        if self.cfg.is_greedy() {
            match argmax(&pen) {
                Option::None => {
                    self.phase = Phase::Terminated;
                    Err(Error::Sampling)
                },
                Option::Some(ix) => {
                    proof {
                        assert(ix < scores@.len());
                        let ps = pen_seq(scores@, old(self).tokens@, old(self).cfg);
                        assert forall|j: int| 0 <= j < ps.len() implies ps[j] == pen@[j] as int by {}
                        assert(is_first_max_int(ps, ix as int)) by {
                            assert forall|j: int| 0 <= j < ps.len() implies ps[j] <= ps[ix as int] by {
                                assert(pen@[j] <= pen@[ix as int]);
                            }
                            assert forall|j: int| 0 <= j < ix as int implies ps[j] < ps[ix as int] by {
                                assert(pen@[j] < pen@[ix as int]);
                            }
                        }
                    }
                    Ok(self.accept_token(ix as u32))
                },
            }
        } else {
            self.phase = Phase::Weighing;
            Ok(Step::NeedWeights(pen))
        }
    }

    /// Feeds the machine the sampling weights it asked for, one per score.
    /// One seeded draw picks a token inside the nucleus the configured
    /// cutoff keeps. Fails with `Sampling` exactly on a degenerate weight
    /// vector: empty, or all zero.
    pub fn provide_weights(&mut self, weights: Vec<u64>) -> (r: Result<Step, Error>)
        requires
            old(self).wf(),
            old(self).phase == Phase::Weighing,
            weights@.len() <= VOCAB_LIMIT,
            forall|i: int| 0 <= i < weights@.len() ==> #[trigger] weights@[i] <= WEIGHT_LIMIT,
        ensures
            final(self).wf(),
            final(self).cfg == old(self).cfg,
            final(self).prompt_len == old(self).prompt_len,
            (r matches Err(_)) <==> (weights@.len() == 0 || (forall|i: int|
                0 <= i < weights@.len() ==> #[trigger] weights@[i] == 0)),
            match r {
                Result::Err(e) => {
                    &&& e == Error::Sampling
                    &&& final(self).phase == Phase::Terminated
                    &&& final(self).tokens@ == old(self).tokens@
                    &&& final(self).generated == old(self).generated
                    &&& final(self).rng.state_spec() == old(self).rng.state_spec()
                },
                Result::Ok(step) => match step {
                    Step::Emit(t) => {
                        &&& nucleus_choice(
                            weights@,
                            old(self).cfg.top_p_eff() as int,
                            old(self).rng.state_spec(),
                            t as usize,
                        )
                        &&& !old(self).cfg.is_stop(t)
                        &&& accept_post(*old(self), *final(self), t)
                        &&& final(self).rng.state_spec() == rng_advance(old(self).rng.state_spec())
                    },
                    Step::Stop(t) => {
                        &&& nucleus_choice(
                            weights@,
                            old(self).cfg.top_p_eff() as int,
                            old(self).rng.state_spec(),
                            t as usize,
                        )
                        &&& old(self).cfg.is_stop(t)
                        &&& accept_post(*old(self), *final(self), t)
                        &&& final(self).rng.state_spec() == rng_advance(old(self).rng.state_spec())
                    },
                    Step::NeedWeights(_) => false,
                },
            },
    {
        let p: u32 = match self.cfg.top_p {
            Option::Some(p) => p,
            Option::None => 1000,
        };
        match crate::nucleus::sample_top_p(&weights, p, &mut self.rng) {
            Result::Err(e) => {
                self.phase = Phase::Terminated;
                Err(e)
            },
            Result::Ok(ix) => {
                proof {
                    assert(ix < weights@.len());
                }
                Ok(self.accept_token(ix as u32))
            },
        }
    }

    /// Ends the run early, as a caller does when a collaborator fails.
    pub fn abort(&mut self)
        requires
            old(self).wf(),
        ensures
            final(self).wf(),
            final(self).phase == Phase::Terminated,
            final(self).cfg == old(self).cfg,
            final(self).prompt_len == old(self).prompt_len,
            final(self).tokens@ == old(self).tokens@,
            final(self).generated == old(self).generated,
            final(self).rng == old(self).rng,
    {
        self.phase = Phase::Terminated;
    }

    /// How many tokens the run has generated.
    pub fn generated_count(&self) -> (r: usize)
        ensures
            r == self.generated,
    {
        self.generated
    }

    /// Whether the run is over.
    pub fn is_terminated(&self) -> (r: bool)
        ensures
            r == (self.phase == Phase::Terminated),
    {
        match self.phase {
            Phase::Terminated => true,
            _ => false,
        }
    }
}

/// Greedy determinism: a greedy step over the same context, configuration
/// and scores picks the same token, so two greedy runs that see the same
/// score vectors produce the same token sequence, step by step.
pub proof fn lemma_greedy_deterministic(
    scores: Seq<i64>,
    tokens: Seq<u32>,
    cfg: Config,
    t1: u32,
    t2: u32,
)
    requires
        greedy_choice(scores, tokens, cfg, t1 as int),
        greedy_choice(scores, tokens, cfg, t2 as int),
    ensures
        t1 == t2,
{
    let s = pen_seq(scores, tokens, cfg);
    assert(is_first_max_int(s, t1 as int));
    assert(is_first_max_int(s, t2 as int));
    if (t1 as int) < (t2 as int) {
        assert(s[t1 as int] < s[t2 as int]);
        assert(s[t2 as int] <= s[t1 as int]);
    }
    if (t2 as int) < (t1 as int) {
        assert(s[t2 as int] < s[t1 as int]);
        assert(s[t1 as int] <= s[t2 as int]);
    }
}

/// Seeded determinism: a sampled step over the same weights, cutoff and
/// generator state draws the same token, so two runs with the same seed,
/// temperature and cutoff that see the same score vectors produce the same
/// sampled sequence, step by step.
pub proof fn lemma_seeded_deterministic(w: Seq<u64>, p: int, state: u64, t1: u32, t2: u32)
    requires
        nucleus_choice(w, p, state, t1 as usize),
        nucleus_choice(w, p, state, t2 as usize),
        w.len() <= 0x1_0000_0000,
    ensures
        t1 == t2,
{
    crate::nucleus::lemma_nucleus_choice_unique(w, p, state, t1 as usize, t2 as usize);
}

/// Observational equality of two machines: same configuration, same
/// context, same spent budget, same generator state, same phase.
pub open spec fn same_machine(a: Generation, b: Generation) -> bool {
    &&& a.cfg == b.cfg
    &&& a.tokens@ == b.tokens@
    &&& a.prompt_len == b.prompt_len
    &&& a.generated == b.generated
    &&& a.rng.state_spec() == b.rng.state_spec()
    &&& a.phase == b.phase
}

/// One accepted greedy step, as `provide_scores` ensures it: the token is
/// the greedy choice over the penalized scores, and the machine moves as
/// `accept_post` says, with the generator untouched.
pub open spec fn greedy_step_rel(
    pre: Generation,
    scores: Seq<i64>,
    post: Generation,
    t: u32,
) -> bool {
    &&& greedy_choice(scores, pre.tokens@, pre.cfg, t as int)
    &&& accept_post(pre, post, t)
    &&& post.cfg == pre.cfg
    &&& post.prompt_len == pre.prompt_len
    &&& post.rng.state_spec() == pre.rng.state_spec()
}

/// One accepted sampled step, as `provide_weights` ensures it: the token
/// is the nucleus choice for the machine's cutoff and generator state, the
/// machine moves as `accept_post` says, and the generator advances once.
pub open spec fn sampled_step_rel(
    pre: Generation,
    weights: Seq<u64>,
    post: Generation,
    t: u32,
) -> bool {
    &&& nucleus_choice(weights, pre.cfg.top_p_eff() as int, pre.rng.state_spec(), t as usize)
    &&& accept_post(pre, post, t)
    &&& post.cfg == pre.cfg
    &&& post.prompt_len == pre.prompt_len
    &&& post.rng.state_spec() == rng_advance(pre.rng.state_spec())
}

/// Greedy runs in lockstep: two machines that cannot be told apart, fed
/// the same score vector, accept the same token and again cannot be told
/// apart — so by induction over the steps, two greedy runs with the same
/// prompt, configuration and score vectors produce identical token
/// sequences.
pub proof fn lemma_greedy_lockstep(
    pre1: Generation,
    pre2: Generation,
    scores: Seq<i64>,
    post1: Generation,
    post2: Generation,
    t1: u32,
    t2: u32,
)
    requires
        same_machine(pre1, pre2),
        greedy_step_rel(pre1, scores, post1, t1),
        greedy_step_rel(pre2, scores, post2, t2),
    ensures
        t1 == t2,
        same_machine(post1, post2),
{
    lemma_greedy_deterministic(scores, pre1.tokens@, pre1.cfg, t1, t2);
}

/// Sampled runs in lockstep: two machines that cannot be told apart, fed
/// the same weights, draw the same token and again cannot be told apart —
/// so by induction over the steps, two runs with the same seed,
/// temperature, cutoff, prompt and score vectors produce identical
/// sampled sequences.
pub proof fn lemma_sampled_lockstep(
    pre1: Generation,
    pre2: Generation,
    weights: Seq<u64>,
    post1: Generation,
    post2: Generation,
    t1: u32,
    t2: u32,
)
    requires
        same_machine(pre1, pre2),
        sampled_step_rel(pre1, weights, post1, t1),
        sampled_step_rel(pre2, weights, post2, t2),
        weights.len() <= 0x1_0000_0000,
    ensures
        t1 == t2,
        same_machine(post1, post2),
{
    crate::nucleus::lemma_nucleus_choice_unique(
        weights,
        pre1.cfg.top_p_eff() as int,
        pre1.rng.state_spec(),
        t1 as usize,
        t2 as usize,
    );
}

/// Termination: a live run has spent less than its budget `n`, every
/// emitted token strictly shrinks what is left, a stop token ends the run
/// at once, and the generated count never passes the budget — so a run
/// emits at most `n` tokens before it terminates.
pub proof fn lemma_termination(pre: Generation, post: Generation, t: u32)
    requires
        pre.wf(),
        pre.phase != Phase::Terminated,
        post.wf(),
        post.cfg == pre.cfg,
        accept_post(pre, post, t),
    ensures
        pre.generated < pre.cfg.sample_len,
        post.generated <= post.cfg.sample_len,
        pre.cfg.is_stop(t) ==> post.phase == Phase::Terminated && post.generated == pre.generated,
        !pre.cfg.is_stop(t) ==> post.cfg.sample_len - post.generated < pre.cfg.sample_len
            - pre.generated,
        post.generated == post.cfg.sample_len ==> post.phase == Phase::Terminated,
{
}

} // verus!
