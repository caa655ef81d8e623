//! The synthesis loop: a fixed number of iterations, each of which steers
//! the image towards the wanted class and then teaches the classifier that
//! the image is generated.
//!
//! The loop does no numeric work itself. For each iteration it hands out
//! the steps to perform, in their order and with their parameters, and the
//! caller performs them on the image and the classifier that it owns.

use vstd::prelude::*;
use crate::ratio::{lemma_multiples_ordered, Ratio};
use crate::target::{lemma_one_hot_injective, one_hot, TargetVector};

verus! {

/// The parameters of one synthesis run.
#[derive(Clone, Copy, Debug, PartialEq, Eq, Structural)]
pub struct SynthesisConfig {
    /// Number of pixels of the image.
    pub pixel_count: usize,
    /// Number of digit classes; target vectors have one slot more.
    pub class_count: usize,
    /// The digit class that the image is steered towards.
    pub target_class: usize,
    /// Number of iterations of the run.
    pub iterations: u64,
    /// Step by which a pixel is raised to measure the loss beside it.
    pub step: Ratio,
    /// Rate at which the image follows its gradient.
    pub state_rate: Ratio,
    /// Amount by which the classifier's learning rate grows per iteration.
    pub rate_increment: Ratio,
}

/// One step of an iteration, for the caller to perform.
#[derive(Clone, Copy, Debug, PartialEq, Eq, Structural)]
pub enum Action {
    /// Estimate the gradient of the loss against `target` over the pixels
    /// of the current image, by forward differences of width `step`, with
    /// the classifier as it stands.
    Estimate { target: TargetVector, step: Ratio },
    /// Move each pixel against its gradient component, times `rate`.
    Descend { rate: Ratio },
    /// Train the classifier on the single example of the current image
    /// paired with `target`, for `epochs` passes at learning rate `rate`.
    Fit { target: TargetVector, epochs: u64, rate: Ratio },
    /// Report the loss of the current image against `target` and the class
    /// that the classifier predicts for it.
    Report { target: TargetVector },
    /// Offer the current image to the frame recorder as that of `iteration`.
    Snapshot { iteration: u64 },
}

/// Where a run stands.
#[derive(Clone, Copy, Debug, PartialEq, Eq, Structural)]
pub enum Phase {
    /// No iteration has been handed out.
    Initialized,
    /// An iteration has been handed out and the run has not been closed.
    Iterating,
    /// Every iteration has been handed out and the run is closed.
    Completed,
}

impl SynthesisConfig {
    /// The parameters can be run: the target is a digit class, the target
    /// vectors and every learning rate of the run fit the machine, and the
    /// ratios name reals.
    pub open spec fn wf(&self) -> bool {
        &&& self.target_class < self.class_count
        &&& self.class_count < usize::MAX
        &&& self.step.wf()
        &&& self.step.numerator > 0
        &&& self.state_rate.wf()
        &&& self.rate_increment.wf()
        &&& self.rate_increment.numerator * self.iterations <= u64::MAX
    }

    /// The target of the synthesis: one-hot at the wanted digit class.
    pub open spec fn reconstruction_target(&self) -> TargetVector {
        TargetVector { len: (self.class_count + 1) as usize, hot: self.target_class }
    }

    /// The target of the classifier's training: one-hot at the sentinel
    /// class, the slot behind the digit classes.
    pub open spec fn sentinel_target(&self) -> TargetVector {
        TargetVector { len: (self.class_count + 1) as usize, hot: self.class_count }
    }

    /// The classifier's learning rate in iteration `i`: `i` increments.
    pub open spec fn fit_rate(&self, i: nat) -> Ratio {
        Ratio {
            numerator: (self.rate_increment.numerator * i) as u64,
            denominator: self.rate_increment.denominator,
        }
    }

    /// The steps of iteration `i`, in the order in which they are performed.
    pub open spec fn plan(&self, i: nat) -> Seq<Action> {
        seq![
            Action::Estimate { target: self.reconstruction_target(), step: self.step },
            Action::Descend { rate: self.state_rate },
            Action::Fit { target: self.sentinel_target(), epochs: 1, rate: self.fit_rate(i) },
            Action::Report { target: self.reconstruction_target() },
            Action::Snapshot { iteration: i as u64 },
        ]
    }

    /// The parameters as given, if they can be run.
    pub fn new(
        pixel_count: usize,
        class_count: usize,
        target_class: usize,
        iterations: u64,
        step: Ratio,
        state_rate: Ratio,
        rate_increment: Ratio,
    ) -> (r: Option<SynthesisConfig>)
        ensures
            ({
                let config = SynthesisConfig {
                    pixel_count,
                    class_count,
                    target_class,
                    iterations,
                    step,
                    state_rate,
                    rate_increment,
                };
                r == (if config.wf() {
                    Some(config)
                } else {
                    None
                })
            }),
    {
        if target_class < class_count && class_count < usize::MAX && step.denominator > 0
            && step.numerator > 0 && state_rate.denominator > 0 && rate_increment.denominator > 0 {
            match rate_increment.times(iterations) {
                Some(_) => Some(
                    SynthesisConfig {
                        pixel_count,
                        class_count,
                        target_class,
                        iterations,
                        step,
                        state_rate,
                        rate_increment,
                    },
                ),
                None => None,
            }
        } else {
            None
        }
    }

    /// The run on images of 28 by 28 pixels and ten digit classes: 201
    /// iterations, a difference step of 0.01, an image rate of 0.04 and a
    /// classifier rate that grows by 0.005 per iteration. `None` if
    /// `target_class` is no digit class.
    pub fn standard(target_class: usize) -> (r: Option<SynthesisConfig>)
        ensures
            r == (if target_class < 10 {
                Some(
                    SynthesisConfig {
                        pixel_count: 784,
                        class_count: 10,
                        target_class,
                        iterations: 201,
                        step: Ratio { numerator: 1, denominator: 100 },
                        state_rate: Ratio { numerator: 4, denominator: 100 },
                        rate_increment: Ratio { numerator: 5, denominator: 1000 },
                    },
                )
            } else {
                None
            }),
            r matches Some(config) ==> config.wf(),
    {
        SynthesisConfig::new(
            784,
            10,
            target_class,
            201,
            Ratio { numerator: 1, denominator: 100 },
            Ratio { numerator: 4, denominator: 100 },
            Ratio { numerator: 5, denominator: 1000 },
        )
    }
}

/// A synthesis run: its parameters and how far it has come.
#[derive(Clone, Copy, Debug, PartialEq, Eq, Structural)]
pub struct SynthesisLoop {
    pub config: SynthesisConfig,
    /// Number of iterations handed out so far.
    pub iteration: u64,
    pub phase: Phase,
}

impl SynthesisLoop {
    /// The run is in a state that a run can reach.
    pub open spec fn wf(&self) -> bool {
        &&& self.config.wf()
        &&& self.iteration <= self.config.iterations
        &&& self.phase == Phase::Initialized ==> self.iteration == 0
        &&& self.phase == Phase::Iterating ==> self.iteration >= 1
        &&& self.phase == Phase::Completed ==> self.iteration == self.config.iterations
    }

    /// The run of `config` before its first iteration.
    pub open spec fn start(config: SynthesisConfig) -> SynthesisLoop {
        SynthesisLoop { config, iteration: 0, phase: Phase::Initialized }
    }

    /// What the run hands out next: the steps of its next iteration, or
    /// nothing when all iterations have been handed out.
    pub open spec fn handed_out(self) -> Option<Seq<Action>> {
        if self.iteration < self.config.iterations {
            Some(self.config.plan(self.iteration as nat))
        } else {
            None
        }
    }

    /// The run after it has handed out what comes next.
    pub open spec fn advanced(self) -> SynthesisLoop {
        if self.iteration < self.config.iterations {
            SynthesisLoop { iteration: (self.iteration + 1) as u64, phase: Phase::Iterating, ..self }
        } else {
            SynthesisLoop { phase: Phase::Completed, ..self }
        }
    }

    /// The run after `n` such moves.
    pub open spec fn advanced_by(self, n: nat) -> SynthesisLoop
        decreases n,
    {
        if n == 0 {
            self
        } else {
            self.advanced_by((n - 1) as nat).advanced()
        }
    }

    /// A run that has not begun.
    pub fn new(config: SynthesisConfig) -> (r: SynthesisLoop)
        requires
            config.wf(),
        ensures
            r == SynthesisLoop::start(config),
            r.wf(),
    {
        SynthesisLoop { config, iteration: 0, phase: Phase::Initialized }
    }

    /// Hands out the steps of the next iteration, or closes the run when
    /// the fixed number of iterations has been handed out. Nothing that
    /// the steps find out changes what comes next.
    pub fn next_iteration(&mut self) -> (r: Option<Vec<Action>>)
        requires
            old(self).wf(),
        ensures
            final(self).wf(),
            *final(self) == old(self).advanced(),
            match r {
                Some(plan) => old(self).handed_out() == Some(plan@),
                None => old(self).handed_out() is None,
            },
    {
        if self.iteration >= self.config.iterations {
            self.phase = Phase::Completed;
            return None;
        }
        let i: u64 = self.iteration;
        let config = self.config;
        assert(config.rate_increment.numerator * i <= u64::MAX) by (nonlinear_arith)
            requires
                config.rate_increment.numerator * config.iterations <= u64::MAX,
                i < config.iterations,
        ;
        let reconstruction = TargetVector { len: config.class_count + 1, hot: config.target_class };
        let sentinel = TargetVector { len: config.class_count + 1, hot: config.class_count };
        let rate = Ratio {
            numerator: config.rate_increment.numerator * i,
            denominator: config.rate_increment.denominator,
        };
        let mut plan: Vec<Action> = Vec::new();
        plan.push(Action::Estimate { target: reconstruction, step: config.step });
        plan.push(Action::Descend { rate: config.state_rate });
        plan.push(Action::Fit { target: sentinel, epochs: 1, rate });
        plan.push(Action::Report { target: reconstruction });
        plan.push(Action::Snapshot { iteration: i });
        self.iteration = i + 1;
        self.phase = Phase::Iterating;
        Some(plan)
    }
}

/// A run ends after its fixed number of iterations and no earlier: its
/// `n`-th move hands out iteration `n - 1` while there is one, the move
/// after the last iteration closes the run, and a closed run stays closed.
pub proof fn lemma_run_completes(config: SynthesisConfig, n: nat)
    requires
        config.wf(),
    ensures
        SynthesisLoop::start(config).advanced_by(n).wf(),
        SynthesisLoop::start(config).advanced_by(n).config == config,
        SynthesisLoop::start(config).advanced_by(n).iteration == (if n <= config.iterations {
            n
        } else {
            config.iterations as nat
        }),
        SynthesisLoop::start(config).advanced_by(n).phase == Phase::Completed <==> n
            > config.iterations,
        SynthesisLoop::start(config).advanced_by(n).handed_out() is Some <==> n < config.iterations,
    decreases n,
{
    if n > 0 {
        lemma_run_completes(config, (n - 1) as nat);
    }
}

/// The classifier's learning rate is the iteration's number of increments
/// and never falls from one iteration to a later one.
pub proof fn lemma_rate_ramp(config: SynthesisConfig, i: nat, j: nat)
    requires
        config.wf(),
        i <= j < config.iterations,
    ensures
        config.plan(j)[2] == (Action::Fit {
            target: config.sentinel_target(),
            epochs: 1,
            rate: config.fit_rate(j),
        }),
        config.fit_rate(j).is_multiple(j, config.rate_increment),
        config.fit_rate(i).le(config.fit_rate(j)),
{
    let unit = config.rate_increment;
    assert(unit.numerator * j <= u64::MAX) by (nonlinear_arith)
        requires
            unit.numerator * config.iterations <= u64::MAX,
            j < config.iterations,
    ;
    lemma_multiples_ordered(unit, i, j);
    assert((unit.numerator * j) * unit.denominator == j * unit.numerator * unit.denominator)
        by (nonlinear_arith);
}

/// In every iteration the classifier is trained exactly once, for one
/// pass, and directly after the image has made its step: on the image as
/// the step left it.
pub proof fn lemma_one_fit_per_iteration(config: SynthesisConfig, i: nat)
    requires
        config.wf(),
        i < config.iterations,
    ensures
        config.plan(i).len() == 5,
        forall|k: int| 0 <= k < 5 ==> ((#[trigger] config.plan(i)[k]) is Fit <==> k == 2),
        config.plan(i)[0] is Estimate,
        config.plan(i)[1] is Descend,
        config.plan(i)[2] matches Action::Fit { epochs, .. } && epochs == 1,
{
}

/// The classifier is always trained towards the sentinel class and never
/// towards the class that the image is steered to.
pub proof fn lemma_fit_target_is_sentinel(config: SynthesisConfig, i: nat, k: int)
    requires
        config.wf(),
        i < config.iterations,
        0 <= k < config.plan(i).len(),
        config.plan(i)[k] is Fit,
    ensures
        config.plan(i)[k] matches Action::Fit { target, .. } && {
            &&& target@ == one_hot((config.class_count + 1) as nat, config.class_count as nat)
            &&& target@ != config.reconstruction_target()@
        },
        config.plan(i)[0] matches Action::Estimate { target, .. } && target
            == config.reconstruction_target(),
{
    lemma_one_fit_per_iteration(config, i);
    let sentinel = config.sentinel_target();
    let wanted = config.reconstruction_target();
    if sentinel@ == wanted@ {
        lemma_one_hot_injective(
            (config.class_count + 1) as nat,
            config.class_count as nat,
            config.target_class as nat,
        );
    }
}

} // verus!
