use cauldron::patch::{PatchRun, PatchStep};

fn steps(reports: &[bool]) -> (Vec<PatchStep>, PatchRun) {
    let mut run = PatchRun::begin(0x1000);
    let mut seen = vec![run.step];
    for report in reports {
        run.report(*report);
        seen.push(run.step);
    }
    (seen, run)
}

#[test]
fn null_target_is_left_alone() {
    let run = PatchRun::begin(0);
    assert_eq!(run.step, PatchStep::Done);
    assert!(run.succeeded());
    assert!(!run.unprotected);
}

#[test]
fn successful_run_takes_the_four_steps_in_order() {
    let (seen, run) = steps(&[true, true, true, true]);
    assert_eq!(
        seen,
        vec![
            PatchStep::Unprotect,
            PatchStep::Write,
            PatchStep::Restore,
            PatchStep::Flush,
            PatchStep::Done
        ]
    );
    assert!(run.succeeded());
    assert!(run.unprotected && run.restore_tried && run.flush_tried);
}

#[test]
fn failed_unprotect_ends_the_run_with_nothing_to_restore() {
    let (seen, run) = steps(&[false]);
    assert_eq!(seen, vec![PatchStep::Unprotect, PatchStep::Done]);
    assert!(!run.succeeded());
    assert!(!run.unprotected && !run.restore_tried && !run.flush_tried);
}

#[test]
fn failed_write_still_restores_and_flushes() {
    let (seen, run) = steps(&[true, false, true, true]);
    assert_eq!(
        seen,
        vec![
            PatchStep::Unprotect,
            PatchStep::Write,
            PatchStep::Restore,
            PatchStep::Flush,
            PatchStep::Done
        ]
    );
    assert!(!run.succeeded());
    assert!(run.restore_tried && run.flush_tried);
}

#[test]
fn failed_restore_still_flushes() {
    let (seen, run) = steps(&[true, true, false, true, true]);
    assert_eq!(seen[3], PatchStep::Flush);
    assert_eq!(seen[4], PatchStep::Done);
    assert_eq!(seen[5], PatchStep::Done);
    assert!(!run.succeeded());
    assert!(run.flush_tried);
}

#[test]
fn unfinished_run_has_not_succeeded() {
    let (_, run) = steps(&[true, true]);
    assert_eq!(run.step, PatchStep::Restore);
    assert!(!run.succeeded());
}
