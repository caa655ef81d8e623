use digit_synthesis::ratio::Ratio;
use digit_synthesis::synthesis::{Action, Phase, SynthesisConfig, SynthesisLoop};
use digit_synthesis::target::TargetVector;

fn ratio(numerator: u64, denominator: u64) -> Ratio {
    Ratio { numerator, denominator }
}

#[test]
fn standard_config_holds_the_run_parameters() {
    let config = SynthesisConfig::standard(3).unwrap();
    assert_eq!(config.pixel_count, 784);
    assert_eq!(config.class_count, 10);
    assert_eq!(config.target_class, 3);
    assert_eq!(config.iterations, 201);
    assert_eq!(config.step, ratio(1, 100));
    assert_eq!(config.state_rate, ratio(4, 100));
    assert_eq!(config.rate_increment, ratio(5, 1000));
}

#[test]
fn standard_config_refuses_what_is_no_digit() {
    assert!(SynthesisConfig::standard(9).is_some());
    assert_eq!(SynthesisConfig::standard(10), None);
    assert_eq!(SynthesisConfig::standard(11), None);
    assert_eq!(SynthesisConfig::standard(usize::MAX), None);
}

#[test]
fn config_refuses_parameters_that_cannot_run() {
    let good = SynthesisConfig::new(4, 10, 3, 5, ratio(1, 100), ratio(4, 100), ratio(5, 1000));
    assert!(good.is_some());
    assert_eq!(SynthesisConfig::new(4, 10, 10, 5, ratio(1, 100), ratio(4, 100), ratio(5, 1000)), None);
    assert_eq!(SynthesisConfig::new(4, usize::MAX, 3, 5, ratio(1, 100), ratio(4, 100), ratio(5, 1000)), None);
    assert_eq!(SynthesisConfig::new(4, 10, 3, 5, ratio(1, 0), ratio(4, 100), ratio(5, 1000)), None);
    assert_eq!(SynthesisConfig::new(4, 10, 3, 5, ratio(0, 100), ratio(4, 100), ratio(5, 1000)), None);
    assert_eq!(SynthesisConfig::new(4, 10, 3, 5, ratio(1, 100), ratio(4, 0), ratio(5, 1000)), None);
    assert_eq!(SynthesisConfig::new(4, 10, 3, 5, ratio(1, 100), ratio(4, 100), ratio(5, 0)), None);
    assert_eq!(SynthesisConfig::new(4, 10, 3, 5, ratio(1, 100), ratio(4, 100), ratio(u64::MAX, 1)), None);
    assert!(SynthesisConfig::new(4, 10, 3, 1, ratio(1, 100), ratio(4, 100), ratio(u64::MAX, 1)).is_some());
    assert!(SynthesisConfig::new(4, 10, 3, 0, ratio(1, 100), ratio(0, 1), ratio(u64::MAX, 1)).is_some());
}

#[test]
fn first_iteration_is_planned_in_order() {
    let config = SynthesisConfig::standard(3).unwrap();
    let mut run = SynthesisLoop::new(config);
    assert_eq!(run.phase, Phase::Initialized);
    let plan = run.next_iteration().unwrap();
    let wanted = TargetVector { len: 11, hot: 3 };
    let sentinel = TargetVector { len: 11, hot: 10 };
    assert_eq!(
        plan,
        vec![
            Action::Estimate { target: wanted, step: ratio(1, 100) },
            Action::Descend { rate: ratio(4, 100) },
            Action::Fit { target: sentinel, epochs: 1, rate: ratio(0, 1000) },
            Action::Report { target: wanted },
            Action::Snapshot { iteration: 0 },
        ]
    );
    assert_eq!(run.phase, Phase::Iterating);
    assert_eq!(run.iteration, 1);
}

#[test]
fn run_ends_after_its_fixed_number_of_iterations() {
    let mut run = SynthesisLoop::new(SynthesisConfig::standard(0).unwrap());
    let mut handed_out = 0;
    while let Some(plan) = run.next_iteration() {
        assert_eq!(plan.len(), 5);
        assert_eq!(plan[4], Action::Snapshot { iteration: handed_out });
        assert_eq!(run.phase, Phase::Iterating);
        handed_out += 1;
        assert!(handed_out <= 201);
    }
    assert_eq!(handed_out, 201);
    assert_eq!(run.phase, Phase::Completed);
    assert_eq!(run.iteration, 201);
    assert_eq!(run.next_iteration(), None);
    assert_eq!(run.phase, Phase::Completed);
    assert_eq!(run.iteration, 201);
}

#[test]
fn run_without_iterations_is_closed_at_once() {
    let config = SynthesisConfig::new(4, 10, 3, 0, ratio(1, 100), ratio(4, 100), ratio(5, 1000)).unwrap();
    let mut run = SynthesisLoop::new(config);
    assert_eq!(run.phase, Phase::Initialized);
    assert_eq!(run.next_iteration(), None);
    assert_eq!(run.phase, Phase::Completed);
}

#[test]
fn fit_rate_ramps_with_the_iteration() {
    let mut run = SynthesisLoop::new(SynthesisConfig::standard(7).unwrap());
    let mut iteration: u64 = 0;
    let mut previous = ratio(0, 1000);
    while let Some(plan) = run.next_iteration() {
        let rates: Vec<Ratio> = plan
            .iter()
            .filter_map(|action| match action {
                Action::Fit { rate, .. } => Some(*rate),
                _ => None,
            })
            .collect();
        assert_eq!(rates, vec![ratio(5 * iteration, 1000)]);
        assert!(previous.numerator * rates[0].denominator <= rates[0].numerator * previous.denominator);
        previous = rates[0];
        iteration += 1;
    }
    assert_eq!(previous, ratio(1000, 1000));
}

#[test]
fn fit_target_is_always_the_sentinel() {
    for class in 0..10 {
        let mut run = SynthesisLoop::new(SynthesisConfig::standard(class).unwrap());
        while let Some(plan) = run.next_iteration() {
            let mut fits = 0;
            for (place, action) in plan.iter().enumerate() {
                match action {
                    Action::Fit { target, epochs, .. } => {
                        fits += 1;
                        assert_eq!(place, 2);
                        assert_eq!(*epochs, 1);
                        assert_eq!(target.to_vec(), vec![0, 0, 0, 0, 0, 0, 0, 0, 0, 0, 1]);
                        assert_ne!(*target, TargetVector { len: 11, hot: class });
                    }
                    Action::Estimate { target, .. } | Action::Report { target } => {
                        assert_eq!(*target, TargetVector { len: 11, hot: class });
                    }
                    _ => {}
                }
            }
            assert_eq!(fits, 1);
            assert!(matches!(plan[1], Action::Descend { .. }));
        }
    }
}

#[test]
fn ratio_times_checks_the_machine_word() {
    assert_eq!(ratio(5, 1000).times(7), Some(ratio(35, 1000)));
    assert_eq!(ratio(5, 1000).times(0), Some(ratio(0, 1000)));
    assert_eq!(ratio(0, 3).times(u64::MAX), Some(ratio(0, 3)));
    assert_eq!(ratio(u64::MAX, 3).times(1), Some(ratio(u64::MAX, 3)));
    assert_eq!(ratio(u64::MAX, 3).times(2), None);
    assert_eq!(ratio(1 << 32, 3).times(1 << 32), None);
    assert_eq!(ratio((1 << 32) - 1, 3).times(1 << 32), Some(ratio(((1u64 << 32) - 1) << 32, 3)));
    assert_eq!(Ratio::new(1, 0), None);
    assert_eq!(Ratio::new(1, 2), Some(ratio(1, 2)));
}
