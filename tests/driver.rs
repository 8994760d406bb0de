use three_body::driver::{Action, Driver};

fn run_to_end(d: &mut Driver) -> Vec<Action> {
    let mut actions = Vec::new();
    loop {
        let a = d.next();
        actions.push(a);
        if a == Action::Finish {
            return actions;
        }
        assert!(actions.len() < 1_000_000, "driver never finished");
    }
}

#[test]
fn duration_of_one_with_step_of_a_tenth_takes_ten_steps_and_eleven_snapshots() {
    let dt = 0.1f64;
    let duration = 1.0f64;
    let steps = (duration / dt).floor() as u64;
    let mut d = Driver::new(steps);
    let actions = run_to_end(&mut d);
    let n_steps = actions.iter().filter(|a| **a == Action::Step).count();
    let n_snapshots = actions.iter().filter(|a| **a == Action::Emit).count();
    assert_eq!(n_steps, 10);
    assert_eq!(n_snapshots, 11);
    assert_eq!(d.steps_done(), 10);
    assert!(d.is_finished());
}

#[test]
fn initial_snapshot_comes_before_any_step() {
    let mut d = Driver::new(3);
    assert_eq!(d.next(), Action::Emit);
    assert_eq!(d.steps_done(), 0);
    assert_eq!(d.next(), Action::Step);
    assert_eq!(d.steps_done(), 1);
}

#[test]
fn steps_and_snapshots_alternate() {
    let mut d = Driver::new(2);
    let actions = run_to_end(&mut d);
    assert_eq!(
        actions,
        vec![
            Action::Emit,
            Action::Step,
            Action::Emit,
            Action::Step,
            Action::Emit,
            Action::Finish
        ]
    );
}

#[test]
fn zero_steps_emit_only_the_initial_state() {
    let mut d = Driver::new(0);
    assert!(!d.is_finished());
    assert_eq!(run_to_end(&mut d), vec![Action::Emit, Action::Finish]);
    assert_eq!(d.total_steps(), 0);
    assert_eq!(d.steps_done(), 0);
}

#[test]
fn a_finished_driver_stays_finished() {
    let mut d = Driver::new(1);
    run_to_end(&mut d);
    for _ in 0..5 {
        assert_eq!(d.next(), Action::Finish);
        assert!(d.is_finished());
        assert_eq!(d.steps_done(), 1);
    }
}

#[test]
fn largest_step_count_is_accepted() {
    let mut d = Driver::new(u64::MAX);
    assert_eq!(d.total_steps(), u64::MAX);
    assert_eq!(d.next(), Action::Emit);
    assert_eq!(d.next(), Action::Step);
    assert!(!d.is_finished());
}
