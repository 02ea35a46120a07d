//! Driving the reactive runtime as a host would: effect bodies are test
//! code between `begin_run` and `finish_run`, and each test propagates a
//! write by running the plan that `set` returns.

use reactive_core::{ReactiveError, Registry, RunStart, Value};

fn fresh_registry() -> Registry {
    let mut reg = Registry::new();
    let rt = reg.create_runtime();
    reg.set_current(rt).unwrap();
    reg
}

#[test]
fn signal_write_reruns_recording_effect() {
    let mut reg = fresh_registry();
    let (r, w) = reg.create_signal(Value::Int(0)).unwrap();
    let e = reg.create_effect().unwrap();
    let mut recorded: Vec<i64> = Vec::new();

    match reg.begin_run(e).unwrap() {
        RunStart::Run(prev) => {
            assert!(prev.is_none());
            match reg.get(&r).unwrap() {
                Value::Int(i) => recorded.push(i),
                _ => panic!("expected an integer"),
            }
            assert!(reg.finish_run(Value::Nil));
        }
        RunStart::Skip => panic!("fresh effect must run"),
    }

    let plan = reg.set(&w, Value::Int(5)).unwrap();
    assert_eq!(plan, vec![e]);
    for eff in plan {
        match reg.begin_run(eff).unwrap() {
            RunStart::Run(_) => {
                match reg.get(&r).unwrap() {
                    Value::Int(i) => recorded.push(i),
                    _ => panic!("expected an integer"),
                }
                assert!(reg.finish_run(Value::Nil));
            }
            RunStart::Skip => {}
        }
    }
    assert_eq!(recorded, vec![0, 5]);
}

#[test]
fn two_subscribers_rerun_in_creation_order() {
    let mut reg = fresh_registry();
    let (r, w) = reg.create_signal(Value::Int(1)).unwrap();

    let e1 = reg.create_effect().unwrap();
    match reg.begin_run(e1).unwrap() {
        RunStart::Run(_) => {
            reg.get(&r).unwrap();
            reg.finish_run(Value::Nil);
        }
        RunStart::Skip => panic!("fresh effect must run"),
    }

    let e2 = reg.create_effect().unwrap();
    match reg.begin_run(e2).unwrap() {
        RunStart::Run(_) => {
            reg.get(&r).unwrap();
            reg.finish_run(Value::Nil);
        }
        RunStart::Skip => panic!("fresh effect must run"),
    }

    let plan = reg.set(&w, Value::Int(2)).unwrap();
    assert_eq!(plan, vec![e1, e2]);
}

#[test]
fn set_with_unchanged_value_still_propagates() {
    let mut reg = fresh_registry();
    let (r, w) = reg.create_signal(Value::Int(3)).unwrap();
    let e = reg.create_effect().unwrap();
    match reg.begin_run(e).unwrap() {
        RunStart::Run(_) => {
            reg.get(&r).unwrap();
            reg.finish_run(Value::Nil);
        }
        RunStart::Skip => panic!("fresh effect must run"),
    }

    // Writing the very same value must still list the subscriber, once.
    let plan = reg.set(&w, Value::Int(3)).unwrap();
    assert_eq!(plan, vec![e]);
    let plan = reg.set(&w, Value::Int(3)).unwrap();
    assert_eq!(plan, vec![e]);
}

#[test]
fn update_with_nil_result_changes_nothing() {
    let mut reg = fresh_registry();
    let (r, w) = reg.create_signal(Value::Int(10)).unwrap();
    let e = reg.create_effect().unwrap();
    match reg.begin_run(e).unwrap() {
        RunStart::Run(_) => {
            reg.get(&r).unwrap();
            reg.finish_run(Value::Nil);
        }
        RunStart::Skip => panic!("fresh effect must run"),
    }

    // The caller's function saw 10 and answered nil: no store, no plan.
    let before = reg.update_read(&w).unwrap();
    assert_eq!(before, Value::Int(10));
    let plan = reg.update_write(&w, Value::Nil).unwrap();
    assert!(plan.is_empty());
    assert_eq!(reg.update_read(&w).unwrap(), Value::Int(10));
}

#[test]
fn update_with_result_stores_and_propagates() {
    let mut reg = fresh_registry();
    let (r, w) = reg.create_signal(Value::Int(10)).unwrap();
    let e = reg.create_effect().unwrap();
    match reg.begin_run(e).unwrap() {
        RunStart::Run(_) => {
            reg.get(&r).unwrap();
            reg.finish_run(Value::Nil);
        }
        RunStart::Skip => panic!("fresh effect must run"),
    }

    let seen = reg.update_read(&w).unwrap();
    let outcome = match seen {
        Value::Int(i) => Value::Int(i + 1),
        _ => panic!("expected an integer"),
    };
    let plan = reg.update_write(&w, outcome).unwrap();
    assert_eq!(plan, vec![e]);
    assert_eq!(reg.update_read(&w).unwrap(), Value::Int(11));
}

#[test]
fn conditional_dependency_switches_subscription() {
    let mut reg = fresh_registry();
    let (ra, wa) = reg.create_signal(Value::Int(0)).unwrap();
    let (rb, wb) = reg.create_signal(Value::Int(100)).unwrap();
    let e = reg.create_effect().unwrap();

    // First run reads only A.
    match reg.begin_run(e).unwrap() {
        RunStart::Run(_) => {
            reg.get(&ra).unwrap();
            reg.finish_run(Value::Nil);
        }
        RunStart::Skip => panic!("fresh effect must run"),
    }

    // A write to A re-runs the effect, which now reads only B.
    let plan = reg.set(&wa, Value::Int(1)).unwrap();
    assert_eq!(plan, vec![e]);
    for eff in plan {
        match reg.begin_run(eff).unwrap() {
            RunStart::Run(_) => {
                reg.get(&rb).unwrap();
                reg.finish_run(Value::Nil);
            }
            RunStart::Skip => {}
        }
    }

    // After the switch, A no longer triggers the effect, B does.
    let plan = reg.set(&wa, Value::Int(2)).unwrap();
    assert!(plan.is_empty());
    let plan = reg.set(&wb, Value::Int(200)).unwrap();
    assert_eq!(plan, vec![e]);
}

#[test]
fn get_after_runtime_disposal_fails() {
    let mut reg = Registry::new();
    let rt = reg.create_runtime();
    reg.set_current(rt).unwrap();
    let (r, w) = reg.create_signal(Value::Int(7)).unwrap();
    assert_eq!(reg.get(&r).unwrap(), Value::Int(7));

    reg.dispose_runtime(rt);
    assert_eq!(reg.get(&r), Err(ReactiveError::UseAfterDispose));
    assert_eq!(reg.set(&w, Value::Int(8)), Err(ReactiveError::UseAfterDispose));
}

#[test]
fn disposal_is_idempotent() {
    let mut reg = fresh_registry();
    let (r, w) = reg.create_signal(Value::Int(1)).unwrap();
    let e = reg.create_effect().unwrap();
    match reg.begin_run(e).unwrap() {
        RunStart::Run(_) => {
            reg.get(&r).unwrap();
            reg.finish_run(Value::Nil);
        }
        RunStart::Skip => panic!("fresh effect must run"),
    }

    reg.dispose_signal(&w);
    reg.dispose_signal(&w);
    assert_eq!(reg.get(&r), Err(ReactiveError::UseAfterDispose));

    reg.dispose_effect(e);
    reg.dispose_effect(e);
    match reg.begin_run(e).unwrap() {
        RunStart::Skip => {}
        RunStart::Run(_) => panic!("a disposed effect must not run"),
    }

    let rt2 = reg.create_runtime();
    reg.dispose_runtime(rt2);
    reg.dispose_runtime(rt2);
}

#[test]
fn disposed_effect_leaves_subscriber_lists() {
    let mut reg = fresh_registry();
    let (r, w) = reg.create_signal(Value::Int(1)).unwrap();
    let e = reg.create_effect().unwrap();
    match reg.begin_run(e).unwrap() {
        RunStart::Run(_) => {
            reg.get(&r).unwrap();
            reg.finish_run(Value::Nil);
        }
        RunStart::Skip => panic!("fresh effect must run"),
    }
    assert_eq!(reg.set(&w, Value::Int(2)).unwrap(), vec![e]);

    reg.dispose_effect(e);
    assert!(reg.set(&w, Value::Int(3)).unwrap().is_empty());
}

#[test]
fn no_active_runtime_is_reported() {
    let mut reg = Registry::new();
    assert_eq!(reg.current(), Err(ReactiveError::NoActiveRuntime));
    assert_eq!(
        reg.create_signal(Value::Int(0)),
        Err(ReactiveError::NoActiveRuntime)
    );
    assert_eq!(reg.create_effect(), Err(ReactiveError::NoActiveRuntime));
    assert_eq!(reg.set_current(3), Err(ReactiveError::UseAfterDispose));
}

#[test]
fn replacing_current_runtime_keeps_previous_alive() {
    let mut reg = Registry::new();
    let rt1 = reg.create_runtime();
    reg.set_current(rt1).unwrap();
    let (r1, _w1) = reg.create_signal(Value::Int(1)).unwrap();

    let rt2 = reg.create_runtime();
    reg.set_current(rt2).unwrap();
    assert_eq!(reg.current(), Ok(rt2));

    // The first runtime was not disposed by the replacement.
    assert_eq!(reg.get(&r1).unwrap(), Value::Int(1));
}

#[test]
fn nested_effect_tracks_into_its_own_frame() {
    let mut reg = fresh_registry();
    let (ra, wa) = reg.create_signal(Value::Int(0)).unwrap();
    let (rb, wb) = reg.create_signal(Value::Int(0)).unwrap();

    let e1 = reg.create_effect().unwrap();
    let mut inner = None;
    match reg.begin_run(e1).unwrap() {
        RunStart::Run(_) => {
            // The outer body creates and first-runs an inner effect that
            // reads B, then itself reads A.
            let e2 = reg.create_effect().unwrap();
            match reg.begin_run(e2).unwrap() {
                RunStart::Run(_) => {
                    reg.get(&rb).unwrap();
                    reg.finish_run(Value::Nil);
                }
                RunStart::Skip => panic!("fresh effect must run"),
            }
            inner = Some(e2);
            reg.get(&ra).unwrap();
            reg.finish_run(Value::Nil);
        }
        RunStart::Skip => panic!("fresh effect must run"),
    }
    let e2 = inner.unwrap();

    // The inner read belongs to the inner effect only, and vice versa.
    assert_eq!(reg.set(&wb, Value::Int(1)).unwrap(), vec![e2]);
    assert_eq!(reg.set(&wa, Value::Int(1)).unwrap(), vec![e1]);
}

#[test]
fn failed_body_is_contained_and_remembered_as_nil() {
    let mut reg = fresh_registry();
    let (r, w) = reg.create_signal(Value::Int(0)).unwrap();
    let e = reg.create_effect().unwrap();

    // First run succeeds and returns 1.
    match reg.begin_run(e).unwrap() {
        RunStart::Run(prev) => {
            assert!(prev.is_none());
            reg.get(&r).unwrap();
            reg.finish_run(Value::Int(1));
        }
        RunStart::Skip => panic!("fresh effect must run"),
    }

    // The writer's call sequence never errors even though the body fails:
    // the host hands nil to finish_run in place of the failed result.
    let plan = reg.set(&w, Value::Int(5)).unwrap();
    assert_eq!(plan, vec![e]);
    for eff in plan {
        match reg.begin_run(eff).unwrap() {
            RunStart::Run(prev) => {
                assert_eq!(prev, Some(Value::Int(1)));
                reg.get(&r).unwrap();
                reg.finish_run(Value::Nil);
            }
            RunStart::Skip => {}
        }
    }

    // The next run sees nil as the previous result.
    let plan = reg.set(&w, Value::Int(6)).unwrap();
    for eff in plan {
        match reg.begin_run(eff).unwrap() {
            RunStart::Run(prev) => {
                assert_eq!(prev, Some(Value::Nil));
                reg.get(&r).unwrap();
                reg.finish_run(Value::Nil);
            }
            RunStart::Skip => {}
        }
    }
}

#[test]
fn update_read_does_not_subscribe() {
    let mut reg = fresh_registry();
    let (_ra, wa) = reg.create_signal(Value::Int(0)).unwrap();
    let e = reg.create_effect().unwrap();
    match reg.begin_run(e).unwrap() {
        RunStart::Run(_) => {
            // The body inspects A through the write capability only.
            reg.update_read(&wa).unwrap();
            reg.finish_run(Value::Nil);
        }
        RunStart::Skip => panic!("fresh effect must run"),
    }
    assert!(reg.set(&wa, Value::Int(1)).unwrap().is_empty());
}

#[test]
fn values_round_trip_through_the_store() {
    let mut reg = fresh_registry();
    let (r, w) = reg.create_signal(Value::Str(String::from("hello"))).unwrap();
    assert_eq!(reg.get(&r).unwrap(), Value::Str(String::from("hello")));
    reg.set(&w, Value::Bool(true)).unwrap();
    assert_eq!(reg.get(&r).unwrap(), Value::Bool(true));
    reg.set(&w, Value::Table(42)).unwrap();
    assert_eq!(reg.get(&r).unwrap(), Value::Table(42));
    reg.set(&w, Value::Func(7)).unwrap();
    assert_eq!(reg.get(&r).unwrap(), Value::Func(7));
    reg.set(&w, Value::Nil).unwrap();
    assert_eq!(reg.get(&r).unwrap(), Value::Nil);
    assert!(reg.get(&r).unwrap().is_nil());
}

#[test]
fn reentrant_write_cascades_depth_first() {
    let mut reg = fresh_registry();
    let (ra, wa) = reg.create_signal(Value::Int(0)).unwrap();
    let (rb, wb) = reg.create_signal(Value::Int(0)).unwrap();
    let mut order: Vec<&str> = Vec::new();

    // e1 reads A and writes B; e2 reads B.
    let e1 = reg.create_effect().unwrap();
    match reg.begin_run(e1).unwrap() {
        RunStart::Run(_) => {
            reg.get(&ra).unwrap();
            // No subscriber of B exists yet during the first run.
            let plan = reg.set(&wb, Value::Int(1)).unwrap();
            assert!(plan.is_empty());
            reg.finish_run(Value::Nil);
        }
        RunStart::Skip => panic!("fresh effect must run"),
    }

    let e2 = reg.create_effect().unwrap();
    match reg.begin_run(e2).unwrap() {
        RunStart::Run(_) => {
            reg.get(&rb).unwrap();
            reg.finish_run(Value::Nil);
        }
        RunStart::Skip => panic!("fresh effect must run"),
    }

    // Writing A re-runs e1, whose body writes B, which re-runs e2 before
    // the outer cascade is done.
    let plan = reg.set(&wa, Value::Int(2)).unwrap();
    assert_eq!(plan, vec![e1]);
    for eff in plan {
        match reg.begin_run(eff).unwrap() {
            RunStart::Run(_) => {
                order.push("e1");
                reg.get(&ra).unwrap();
                let inner_plan = reg.set(&wb, Value::Int(3)).unwrap();
                assert_eq!(inner_plan, vec![e2]);
                for ieff in inner_plan {
                    match reg.begin_run(ieff).unwrap() {
                        RunStart::Run(_) => {
                            order.push("e2");
                            reg.get(&rb).unwrap();
                            reg.finish_run(Value::Nil);
                        }
                        RunStart::Skip => {}
                    }
                }
                reg.finish_run(Value::Nil);
            }
            RunStart::Skip => {}
        }
    }
    assert_eq!(order, vec!["e1", "e2"]);
}

#[test]
fn resubscribing_effect_keeps_its_registration_position() {
    let mut reg = fresh_registry();
    let (r, w) = reg.create_signal(Value::Int(0)).unwrap();

    let mut effects = Vec::new();
    for _ in 0..2 {
        let e = reg.create_effect().unwrap();
        match reg.begin_run(e).unwrap() {
            RunStart::Run(_) => {
                reg.get(&r).unwrap();
                reg.finish_run(Value::Nil);
            }
            RunStart::Skip => panic!("fresh effect must run"),
        }
        effects.push(e);
    }

    // Re-running the first effect, still reading the signal, must not
    // move it behind the second in the propagation order.
    let plan = reg.set(&w, Value::Int(1)).unwrap();
    assert_eq!(plan, effects);
    for eff in plan {
        match reg.begin_run(eff).unwrap() {
            RunStart::Run(_) => {
                reg.get(&r).unwrap();
                reg.finish_run(Value::Nil);
            }
            RunStart::Skip => {}
        }
    }
    let plan = reg.set(&w, Value::Int(2)).unwrap();
    assert_eq!(plan, effects);
}

#[test]
fn effect_disposed_mid_cascade_is_skipped() {
    let mut reg = fresh_registry();
    let (r, w) = reg.create_signal(Value::Int(0)).unwrap();

    let mut effects = Vec::new();
    for _ in 0..2 {
        let e = reg.create_effect().unwrap();
        match reg.begin_run(e).unwrap() {
            RunStart::Run(_) => {
                reg.get(&r).unwrap();
                reg.finish_run(Value::Nil);
            }
            RunStart::Skip => panic!("fresh effect must run"),
        }
        effects.push(e);
    }
    let (e1, e2) = (effects[0], effects[1]);

    // The snapshot taken at write time still names both effects, but the
    // first body disposes the second, which then becomes a no-op.
    let plan = reg.set(&w, Value::Int(1)).unwrap();
    assert_eq!(plan, vec![e1, e2]);
    let mut ran = Vec::new();
    for eff in plan {
        match reg.begin_run(eff).unwrap() {
            RunStart::Run(_) => {
                ran.push(eff);
                reg.get(&r).unwrap();
                if eff == e1 {
                    reg.dispose_effect(e2);
                }
                reg.finish_run(Value::Nil);
            }
            RunStart::Skip => {}
        }
    }
    assert_eq!(ran, vec![e1]);
}

#[test]
fn signal_disposed_during_a_run_is_forgotten() {
    let mut reg = fresh_registry();
    let (ra, wa) = reg.create_signal(Value::Int(0)).unwrap();
    let (rb, wb) = reg.create_signal(Value::Int(0)).unwrap();

    let e = reg.create_effect().unwrap();
    match reg.begin_run(e).unwrap() {
        RunStart::Run(_) => {
            reg.get(&ra).unwrap();
            reg.get(&rb).unwrap();
            // A goes away while the run that read it is still open.
            reg.dispose_signal(&wa);
            reg.finish_run(Value::Nil);
        }
        RunStart::Skip => panic!("fresh effect must run"),
    }

    // The finished run subscribed the effect to B only; A is gone.
    assert_eq!(reg.set(&wa, Value::Int(1)), Err(ReactiveError::UseAfterDispose));
    assert_eq!(reg.set(&wb, Value::Int(1)).unwrap(), vec![e]);
}

#[test]
fn current_runtime_is_reported() {
    let mut reg = Registry::new();
    let rt = reg.create_runtime();
    assert_eq!(reg.current(), Err(ReactiveError::NoActiveRuntime));
    reg.set_current(rt).unwrap();
    assert_eq!(reg.current(), Ok(rt));
}

#[test]
fn disposed_signal_drops_out_of_subscriptions() {
    let mut reg = fresh_registry();
    let (ra, wa) = reg.create_signal(Value::Int(0)).unwrap();
    let (rb, wb) = reg.create_signal(Value::Int(0)).unwrap();
    let e = reg.create_effect().unwrap();
    match reg.begin_run(e).unwrap() {
        RunStart::Run(_) => {
            reg.get(&ra).unwrap();
            reg.get(&rb).unwrap();
            reg.finish_run(Value::Nil);
        }
        RunStart::Skip => panic!("fresh effect must run"),
    }

    reg.dispose_signal(&wa);
    assert_eq!(reg.get(&ra), Err(ReactiveError::UseAfterDispose));
    assert_eq!(reg.set(&wa, Value::Int(1)), Err(ReactiveError::UseAfterDispose));
    assert_eq!(
        reg.update_write(&wa, Value::Int(1)),
        Err(ReactiveError::UseAfterDispose)
    );

    // The other subscription is untouched.
    assert_eq!(reg.set(&wb, Value::Int(1)).unwrap(), vec![e]);
}
