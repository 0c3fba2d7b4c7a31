use board_brain::models::trainer::Directive;
use board_brain::models::trainer::Loss;
use board_brain::models::trainer::SelfPlayTrainer;
use board_brain::models::trainer::TrainError;
use board_brain::models::trainer::TrainEvent;
use board_brain::models::trainer::TrainingMode;
use board_brain::models::trainer::REPORT_EVERY;

/// Runs one cycle whose steps have the given losses.
fn cycle(trainer: &mut SelfPlayTrainer, losses: &[Loss]) -> Result<Directive, TrainError> {
    for loss in losses {
        trainer.train(TrainEvent::StepDone(*loss))?;
    }
    trainer.train(TrainEvent::CycleDone)
}

#[test]
fn new_trainer_has_done_nothing() {
    let trainer = SelfPlayTrainer::new(TrainingMode::Epoch(3), true, 10);
    assert_eq!(trainer.cycles, 0);
    assert_eq!(trainer.steps, 0);
    assert_eq!(trainer.cycle_loss, None);
    assert_eq!(trainer.last_loss, None);
    assert!(!trainer.checkpoint_due);
    assert!(trainer.log);
    assert_eq!(trainer.mode, TrainingMode::Epoch(3));
    assert_eq!(trainer.max_cycles, 10);
    assert_eq!(trainer.directive(), Directive::RunCycle);
}

#[test]
fn epochs_run_exactly_as_many_cycles() {
    for epochs in [0usize, 1, 2, 5] {
        let mut trainer = SelfPlayTrainer::new(TrainingMode::Epoch(epochs), false, 1);
        let mut next = trainer.train(TrainEvent::Begin);
        let mut cycles = 0;
        while next == Ok(Directive::RunCycle) {
            cycles += 1;
            next = cycle(&mut trainer, &[7, 3]);
        }
        assert_eq!(next, Ok(Directive::Stop));
        assert_eq!(cycles, epochs);
        assert_eq!(trainer.cycles, epochs);
        assert_eq!(trainer.steps as usize, 2 * epochs);
    }
}

#[test]
fn loss_of_a_cycle_is_that_of_its_last_step() {
    let mut trainer = SelfPlayTrainer::new(TrainingMode::TargetLoss(10, None), false, 1000);
    assert_eq!(cycle(&mut trainer, &[1, 2, 50]), Ok(Directive::RunCycle));
    assert_eq!(trainer.last_loss, Some(50));
    assert_eq!(trainer.cycle_loss, None);
    assert_eq!(cycle(&mut trainer, &[90, 80, 9]), Ok(Directive::Stop));
    assert_eq!(trainer.last_loss, Some(9));
    assert_eq!(trainer.cycles, 2);
}

#[test]
fn low_loss_in_the_middle_of_a_cycle_does_not_stop() {
    let mut trainer = SelfPlayTrainer::new(TrainingMode::TargetLoss(10, None), false, 1000);
    assert_eq!(cycle(&mut trainer, &[1, 2, 50]), Ok(Directive::RunCycle));
    assert_eq!(cycle(&mut trainer, &[0, 0, 10]), Ok(Directive::RunCycle));
}

#[test]
fn target_loss_stops_once_the_loss_drops_below_the_target() {
    let mut trainer = SelfPlayTrainer::new(TrainingMode::TargetLoss(10, None), false, 1000);
    assert_eq!(trainer.train(TrainEvent::Begin), Ok(Directive::RunCycle));
    assert_eq!(cycle(&mut trainer, &[50]), Ok(Directive::RunCycle));
    assert_eq!(cycle(&mut trainer, &[11]), Ok(Directive::RunCycle));
    assert_eq!(cycle(&mut trainer, &[10]), Ok(Directive::RunCycle));
    assert_eq!(trainer.directive(), Directive::RunCycle);
    assert_eq!(cycle(&mut trainer, &[9]), Ok(Directive::Stop));
    assert_eq!(trainer.cycles, 4);
    assert_eq!(trainer.directive(), Directive::Stop);

    let mut trainer = SelfPlayTrainer::new(TrainingMode::TargetLoss(10, None), false, 1000);
    assert_eq!(cycle(&mut trainer, &[-3]), Ok(Directive::Stop));
}

#[test]
fn target_loss_goes_by_the_last_cycle_only() {
    let mut trainer = SelfPlayTrainer::new(TrainingMode::TargetLoss(0, None), false, 1000);
    for loss in [9, 1, 7, 3, 0] {
        assert_eq!(cycle(&mut trainer, &[loss]), Ok(Directive::RunCycle));
    }
    assert_eq!(cycle(&mut trainer, &[-1]), Ok(Directive::Stop));
}

#[test]
fn checkpoint_comes_after_every_so_many_cycles() {
    let mut trainer = SelfPlayTrainer::new(TrainingMode::TargetLoss(10, Some(3)), false, 1000);
    let mut saved_after = Vec::new();
    let mut next = trainer.train(TrainEvent::Begin);
    for _ in 0..10 {
        assert_eq!(next, Ok(Directive::RunCycle));
        next = cycle(&mut trainer, &[99]);
        if next == Ok(Directive::SaveCheckpoint) {
            assert_eq!(trainer.directive(), Directive::SaveCheckpoint);
            saved_after.push(trainer.cycles);
            next = trainer.train(TrainEvent::CheckpointSaved);
        }
    }
    assert_eq!(saved_after, vec![3, 6, 9]);
    assert_eq!(trainer.cycles, 10);
}

#[test]
fn no_checkpoint_once_the_target_is_reached() {
    let mut trainer = SelfPlayTrainer::new(TrainingMode::TargetLoss(10, Some(2)), false, 1000);
    assert_eq!(cycle(&mut trainer, &[99]), Ok(Directive::RunCycle));
    assert_eq!(cycle(&mut trainer, &[5]), Ok(Directive::Stop));
    assert!(!trainer.checkpoint_due);
}

#[test]
fn cycle_that_ends_with_the_target_itself_is_followed_by_its_checkpoint() {
    let mut trainer = SelfPlayTrainer::new(TrainingMode::TargetLoss(10, Some(2)), false, 1000);
    assert_eq!(cycle(&mut trainer, &[10]), Ok(Directive::RunCycle));
    assert_eq!(cycle(&mut trainer, &[10]), Ok(Directive::SaveCheckpoint));
    assert_eq!(trainer.train(TrainEvent::CheckpointSaved), Ok(Directive::RunCycle));
    assert_eq!(cycle(&mut trainer, &[10]), Ok(Directive::RunCycle));
    assert_eq!(cycle(&mut trainer, &[9]), Ok(Directive::Stop));
    assert!(!trainer.checkpoint_due);
}

#[test]
fn cadence_of_zero_never_saves() {
    let mut trainer = SelfPlayTrainer::new(TrainingMode::TargetLoss(10, Some(0)), false, 1000);
    for _ in 0..5 {
        assert_eq!(cycle(&mut trainer, &[99]), Ok(Directive::RunCycle));
    }
}

#[test]
fn epochs_never_save() {
    let mut trainer = SelfPlayTrainer::new(TrainingMode::Epoch(4), false, 1000);
    for _ in 0..3 {
        assert_eq!(cycle(&mut trainer, &[99]), Ok(Directive::RunCycle));
    }
    assert_eq!(cycle(&mut trainer, &[99]), Ok(Directive::Stop));
}

#[test]
fn target_loss_gives_up_after_the_cap() {
    let mut trainer = SelfPlayTrainer::new(TrainingMode::TargetLoss(10, None), false, 4);
    for _ in 0..3 {
        assert_eq!(cycle(&mut trainer, &[99]), Ok(Directive::RunCycle));
    }
    assert_eq!(cycle(&mut trainer, &[99]), Ok(Directive::Stop));
    assert_eq!(trainer.cycles, 4);
    let mut idle = SelfPlayTrainer::new(TrainingMode::TargetLoss(10, None), false, 0);
    assert_eq!(idle.train(TrainEvent::Begin), Ok(Directive::Stop));
}

#[test]
fn checkpoint_at_the_cap_is_still_saved() {
    let mut trainer = SelfPlayTrainer::new(TrainingMode::TargetLoss(10, Some(2)), false, 2);
    assert_eq!(cycle(&mut trainer, &[99]), Ok(Directive::RunCycle));
    assert_eq!(cycle(&mut trainer, &[99]), Ok(Directive::SaveCheckpoint));
    assert_eq!(trainer.train(TrainEvent::CheckpointSaved), Ok(Directive::Stop));
}

#[test]
fn cycle_without_examples_is_an_error_and_changes_nothing() {
    let mut trainer = SelfPlayTrainer::new(TrainingMode::Epoch(3), false, 10);
    assert_eq!(cycle(&mut trainer, &[4]), Ok(Directive::RunCycle));
    let before = trainer;
    assert_eq!(trainer.train(TrainEvent::CycleDone), Err(TrainError::NoTrainableExamples));
    assert_eq!(trainer, before);
    assert_eq!(trainer.directive(), Directive::RunCycle);
    assert_eq!(cycle(&mut trainer, &[]), Err(TrainError::NoTrainableExamples));
}

#[test]
fn report_out_of_turn_is_an_error_and_changes_nothing() {
    let mut trainer = SelfPlayTrainer::new(TrainingMode::Epoch(1), false, 10);
    assert_eq!(trainer.train(TrainEvent::CheckpointSaved), Err(TrainError::OutOfTurn));
    assert_eq!(cycle(&mut trainer, &[4]), Ok(Directive::Stop));
    let before = trainer;
    assert_eq!(trainer.train(TrainEvent::StepDone(4)), Err(TrainError::OutOfTurn));
    assert_eq!(trainer.train(TrainEvent::CycleDone), Err(TrainError::OutOfTurn));
    assert_eq!(trainer, before);

    let mut saving = SelfPlayTrainer::new(TrainingMode::TargetLoss(0, Some(1)), false, 10);
    assert_eq!(cycle(&mut saving, &[4]), Ok(Directive::SaveCheckpoint));
    assert_eq!(saving.train(TrainEvent::StepDone(4)), Err(TrainError::OutOfTurn));
    assert_eq!(saving.train(TrainEvent::CycleDone), Err(TrainError::OutOfTurn));
    assert_eq!(saving.train(TrainEvent::Begin), Ok(Directive::SaveCheckpoint));
}

#[test]
fn progress_is_due_every_hundred_and_fifty_steps() {
    assert_eq!(REPORT_EVERY, 150);
    let mut trainer = SelfPlayTrainer::new(TrainingMode::Epoch(1), true, 10);
    let mut reports = Vec::new();
    for step in 1..=450u32 {
        match trainer.train(TrainEvent::StepDone(1)) {
            Ok(Directive::Report) => reports.push(step),
            Ok(Directive::GoOn) => {}
            other => panic!("step {step} was answered with {other:?}"),
        }
        assert_eq!(trainer.steps, step);
    }
    assert_eq!(reports, vec![150, 300, 450]);
    assert_eq!(trainer.cycles, 0);
}

#[test]
fn steps_are_counted_across_cycles() {
    let mut trainer = SelfPlayTrainer::new(TrainingMode::Epoch(3), true, 10);
    let losses = vec![1; 100];
    assert_eq!(cycle(&mut trainer, &losses), Ok(Directive::RunCycle));
    for step in 101..=149u32 {
        assert_eq!(trainer.train(TrainEvent::StepDone(1)), Ok(Directive::GoOn), "step {step}");
    }
    assert_eq!(trainer.train(TrainEvent::StepDone(1)), Ok(Directive::Report));
}

#[test]
fn quiet_trainer_counts_steps_without_reports() {
    let mut trainer = SelfPlayTrainer::new(TrainingMode::Epoch(1), false, 10);
    for _ in 0..300 {
        assert_eq!(trainer.train(TrainEvent::StepDone(1)), Ok(Directive::GoOn));
    }
    assert_eq!(trainer.steps, 300);
}

#[test]
fn step_count_starts_over_after_the_largest_number() {
    let mut trainer = SelfPlayTrainer::new(TrainingMode::Epoch(1), true, 10);
    trainer.steps = u32::MAX;
    assert_eq!(trainer.train(TrainEvent::StepDone(1)), Ok(Directive::Report));
    assert_eq!(trainer.steps, 0);
    assert_eq!(trainer.train(TrainEvent::StepDone(1)), Ok(Directive::GoOn));
    assert_eq!(trainer.steps, 1);
}
