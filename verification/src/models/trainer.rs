//! The decisions of the training loop: when to play another game of
//! self-play, when to save the policy, and when to stop.

use vstd::prelude::*;

verus! {

/// The loss of one training step. Only the order of losses matters: a
/// trainer that computes in another kind of number hands over integers that
/// stand in the same order.
pub type Loss = i64;

/// After how many training steps a line of progress is due.
pub const REPORT_EVERY: u32 = 150;

/// When training stops.
#[derive(Copy, Clone, Debug, PartialEq, Eq, Structural)]
pub enum TrainingMode {
    /// After exactly this many cycles.
    Epoch(usize),
    /// As soon as a cycle ends with a loss below the target. If a number
    /// follows, the policy is saved after every so many cycles.
    TargetLoss(Loss, Option<usize>),
}

/// What the training loop does next.
#[derive(Copy, Clone, Debug, PartialEq, Eq, Structural)]
pub enum Directive {
    /// Reset the game, play one game of self-play, and train on its
    /// examples in the order of its moves.
    RunCycle,
    /// Go on with the cycle.
    GoOn,
    /// Print a line of progress, and go on with the cycle.
    Report,
    /// Save the policy's parameters.
    SaveCheckpoint,
    /// Training is over.
    Stop,
}

/// What the training loop reports to the trainer.
#[derive(Copy, Clone, Debug, PartialEq, Eq, Structural)]
pub enum TrainEvent {
    /// The loop starts, or asks again what is due.
    Begin,
    /// One training example was trained on, with the given loss.
    StepDone(Loss),
    /// The examples of the cycle's episode are used up.
    CycleDone,
    /// The policy's parameters were saved.
    CheckpointSaved,
}

/// Why the trainer does not go on.
#[derive(Copy, Clone, Debug, PartialEq, Eq, Structural)]
pub enum TrainError {
    /// A cycle gave no training example.
    NoTrainableExamples,
    /// The loop reported what the trainer had not asked for.
    OutOfTurn,
}

/// The state of a training run by self-play.
#[derive(Copy, Clone, Debug, PartialEq, Eq, Structural)]
pub struct SelfPlayTrainer {
    /// Whether lines of progress are wanted.
    pub log: bool,
    /// When training stops.
    pub mode: TrainingMode,
    /// The number of cycles after which training by target loss gives up.
    pub max_cycles: usize,
    /// The number of cycles that are over.
    pub cycles: usize,
    /// The number of training steps that were made, counted modulo 2^32.
    pub steps: u32,
    /// The loss of the latest training step of the cycle that is running.
    pub cycle_loss: Option<Loss>,
    /// The loss with which the last cycle ended: that of its last step.
    pub last_loss: Option<Loss>,
    /// Whether the policy is to be saved before the next cycle.
    pub checkpoint_due: bool,
}

impl SelfPlayTrainer {
    /// What is due in this state. A checkpoint that is due comes first.
    /// Training by epochs runs until the cycles are counted out. Training by
    /// target loss stops once the last cycle's loss is below the target, and
    /// gives up after `max_cycles` cycles.
    pub open spec fn due(self) -> Directive {
        if self.checkpoint_due {
            Directive::SaveCheckpoint
        } else {
            match self.mode {
                TrainingMode::Epoch(epochs) => if self.cycles < epochs {
                    Directive::RunCycle
                } else {
                    Directive::Stop
                },
                TrainingMode::TargetLoss(target, _) => if self.last_loss matches Some(loss)
                    && loss < target {
                    Directive::Stop
                } else if self.cycles < self.max_cycles {
                    Directive::RunCycle
                } else {
                    Directive::Stop
                },
            }
        }
    }

    /// Whether a cycle that is the `cycles`-th and ends with `loss` is
    /// followed by a checkpoint: training goes by target loss, the loss is
    /// not yet below the target, and the count of cycles is a multiple of
    /// the checkpoint cadence.
    pub open spec fn saves_after(self, cycles: int, loss: Loss) -> bool {
        self.mode matches TrainingMode::TargetLoss(target, Some(every)) && loss >= target
            && every > 0 && cycles % (every as int) == 0
    }

    /// The state that an event leads to, or the error that it meets. A step
    /// is counted and its loss kept; the end of a cycle makes the loss of
    /// its last step the loss of the cycle. A report that was not asked
    /// for, and a cycle without a step, are errors.
    pub open spec fn after(self, event: TrainEvent) -> Result<SelfPlayTrainer, TrainError> {
        match event {
            TrainEvent::Begin => Ok(self),
            TrainEvent::StepDone(loss) => if self.due() != Directive::RunCycle {
                Err(TrainError::OutOfTurn)
            } else {
                Ok(
                    SelfPlayTrainer {
                        steps: ((self.steps + 1) % 0x1_0000_0000) as u32,
                        cycle_loss: Some(loss),
                        ..self
                    },
                )
            },
            TrainEvent::CycleDone => if self.due() != Directive::RunCycle {
                Err(TrainError::OutOfTurn)
            } else {
                match self.cycle_loss {
                    None => Err(TrainError::NoTrainableExamples),
                    Some(loss) => Ok(
                        SelfPlayTrainer {
                            cycles: (self.cycles + 1) as usize,
                            cycle_loss: None,
                            last_loss: Some(loss),
                            checkpoint_due: self.saves_after(self.cycles + 1, loss),
                            ..self
                        },
                    ),
                }
            },
            TrainEvent::CheckpointSaved => if self.checkpoint_due {
                Ok(SelfPlayTrainer { checkpoint_due: false, ..self })
            } else {
                Err(TrainError::OutOfTurn)
            },
        }
    }

    /// What the loop is told after an event that led to `self`: after a
    /// step, to go on, with a line of progress after every `REPORT_EVERY`
    /// steps where such lines are wanted; else what is due.
    pub open spec fn told(self, event: TrainEvent) -> Directive {
        if event is StepDone {
            if self.log && self.steps % REPORT_EVERY == 0 {
                Directive::Report
            } else {
                Directive::GoOn
            }
        } else {
            self.due()
        }
    }

    /// A trainer before its first cycle.
    pub fn new(mode: TrainingMode, log: bool, max_cycles: usize) -> (trainer: SelfPlayTrainer)
        ensures
            trainer == (SelfPlayTrainer {
                log,
                mode,
                max_cycles,
                cycles: 0,
                steps: 0,
                cycle_loss: None,
                last_loss: None,
                checkpoint_due: false,
            }),
    {
        SelfPlayTrainer {
            log,
            mode,
            max_cycles,
            cycles: 0,
            steps: 0,
            cycle_loss: None,
            last_loss: None,
            checkpoint_due: false,
        }
    }

    /// Tells what is due in this state.
    pub fn directive(&self) -> (d: Directive)
        ensures
            d == self.due(),
    {
        if self.checkpoint_due {
            return Directive::SaveCheckpoint;
        }
        let more = match self.mode {
            TrainingMode::Epoch(epochs) => self.cycles < epochs,
            TrainingMode::TargetLoss(target, _) => {
                let reached = match self.last_loss {
                    Some(loss) => loss < target,
                    None => false,
                };
                !reached && self.cycles < self.max_cycles
            },
        };
        if more {
            Directive::RunCycle
        } else {
            Directive::Stop
        }
    }

    /// Takes in what the training loop reports, and tells what it is to do
    /// next. An event that meets an error changes nothing.
    pub fn train(&mut self, event: TrainEvent) -> (next: Result<Directive, TrainError>)
        ensures
            match old(self).after(event) {
                Ok(state) => *final(self) == state && next == Ok::<Directive, TrainError>(
                    state.told(event),
                ),
                Err(e) => *final(self) == *old(self) && next == Err::<Directive, TrainError>(e),
            },
    {
        match event {
            TrainEvent::Begin => Ok(self.directive()),
            TrainEvent::StepDone(loss) => {
                if self.directive() != Directive::RunCycle {
                    return Err(TrainError::OutOfTurn);
                }
                self.steps = if self.steps == u32::MAX {
                    0
                } else {
                    self.steps + 1
                };
                self.cycle_loss = Some(loss);
                if self.log && self.steps % REPORT_EVERY == 0 {
                    Ok(Directive::Report)
                } else {
                    Ok(Directive::GoOn)
                }
            },
            TrainEvent::CycleDone => {
                if self.directive() != Directive::RunCycle {
                    return Err(TrainError::OutOfTurn);
                }
                let loss = match self.cycle_loss {
                    None => {
                        return Err(TrainError::NoTrainableExamples);
                    },
                    Some(loss) => loss,
                };
                self.cycles = self.cycles + 1;
                self.cycle_loss = None;
                self.last_loss = Some(loss);
                self.checkpoint_due = match self.mode {
                    TrainingMode::TargetLoss(target, Some(every)) => loss >= target && every > 0
                        && self.cycles % every == 0,
                    _ => false,
                };
                Ok(self.directive())
            },
            TrainEvent::CheckpointSaved => {
                if !self.checkpoint_due {
                    return Err(TrainError::OutOfTurn);
                }
                self.checkpoint_due = false;
                Ok(self.directive())
            },
        }
    }
}

/// Training by epochs asks for another cycle until as many cycles are over
/// as were asked for, and then stops: it runs exactly so many cycles.
pub proof fn lemma_epochs_run_out(trainer: SelfPlayTrainer, epochs: usize)
    requires
        trainer.mode == TrainingMode::Epoch(epochs),
        !trainer.checkpoint_due,
    ensures
        trainer.due() == if trainer.cycles < epochs {
            Directive::RunCycle
        } else {
            Directive::Stop
        },
        trainer.after(TrainEvent::CycleDone) matches Ok(next) ==> next.cycles == trainer.cycles + 1
            && !next.checkpoint_due && next.mode == trainer.mode,
{
}

/// Training by target loss stops exactly when the last cycle ended with a
/// loss below the target, or the cap on the cycles is reached; a cycle that
/// ends with the target itself is followed by another.
pub proof fn lemma_target_loss_stops_below(trainer: SelfPlayTrainer, target: Loss)
    requires
        trainer.mode matches TrainingMode::TargetLoss(t, _) && t == target,
        !trainer.checkpoint_due,
    ensures
        trainer.due() == Directive::Stop <==> (trainer.last_loss matches Some(loss) && loss
            < target) || trainer.cycles >= trainer.max_cycles,
        trainer.due() == Directive::Stop || trainer.due() == Directive::RunCycle,
{
}

/// Training by target loss never runs more cycles than its cap allows.
pub proof fn lemma_target_loss_is_capped(trainer: SelfPlayTrainer)
    requires
        trainer.mode is TargetLoss,
        trainer.cycles <= trainer.max_cycles,
    ensures
        trainer.after(TrainEvent::CycleDone) matches Ok(next) ==> next.cycles
            <= trainer.max_cycles && next.max_cycles == trainer.max_cycles,
        trainer.cycles == trainer.max_cycles ==> trainer.due() != Directive::RunCycle,
{
}

} // verus!
