use functional_kube::executor::{requeue_delay, requeue_to_action, Effect, Execution, Outcome, Step};
use functional_kube::result::{Duration, ReconcileResult, RequeueDecision, ResourceDelete};
use functional_kube::testing::{RecordingExecutor, TestExecutorError};
use kube::runtime::controller::Action;

fn std_secs(secs: u64) -> std::time::Duration {
    std::time::Duration::from_secs(secs)
}

/// Drives the execution of `result` as the shell does: performs each effect
/// through `perform` (which says whether it succeeded) and returns the
/// requeue action, or the index of the effect that stopped the execution.
fn drive<U, S>(
    result: &ReconcileResult<U, S>,
    mut perform: impl FnMut(Effect) -> bool,
) -> Result<Action, Effect> {
    let mut execution = Execution::new(result);
    loop {
        match execution.next_step() {
            Step::Finish => return Ok(requeue_to_action(result.requeue)),
            Step::Perform(effect) => {
                let ok = perform(effect);
                if execution.record(ok) == Outcome::Abort {
                    return Err(effect);
                }
            }
        }
    }
}

#[test]
fn requeue_to_action_after() {
    let action = requeue_to_action(Some(RequeueDecision::After(Duration::from_secs(60))));
    assert_eq!(action, Action::requeue(std_secs(60)));
}

#[test]
fn requeue_to_action_on_error() {
    let action = requeue_to_action(Some(RequeueDecision::OnError(Duration::from_secs(5))));
    assert_eq!(action, Action::requeue(std_secs(5)));
}

#[test]
fn requeue_to_action_never() {
    let action = requeue_to_action(Some(RequeueDecision::Never));
    assert_eq!(action, Action::requeue(std_secs(3600)));
}

#[test]
fn requeue_to_action_none() {
    let action = requeue_to_action(None);
    assert_eq!(action, Action::requeue(std_secs(300)));
}

#[test]
fn status_updates_execute_before_upserts() {
    let mut result: ReconcileResult<String, String> = ReconcileResult::new();
    result.upserts.push("deploy-1".to_string());
    result.status_updates.push("gw-status".to_string());
    result
        .deletes
        .push(ResourceDelete::new("v1", "ConfigMap", None, "old-cm"));

    let mut order: Vec<String> = Vec::new();
    drive(&result, |effect| {
        match effect {
            Effect::LogEvent(_) => {}
            Effect::ApplyUpsert(i) => order.push(format!("upsert:{}", result.upserts[i])),
            Effect::ApplyStatusUpdate(i) => {
                order.push(format!("status:{}", result.status_updates[i]))
            }
            Effect::ApplyDelete(i) => order.push(format!("delete:{}", result.deletes[i].name)),
        }
        true
    })
    .unwrap();

    assert_eq!(order[0], "status:gw-status");
    assert_eq!(order[1], "upsert:deploy-1");
    assert_eq!(order[2], "delete:old-cm");
}

#[test]
fn delete_errors_do_not_abort() {
    let mut result: ReconcileResult<String, String> = ReconcileResult::new();
    result
        .deletes
        .push(ResourceDelete::new("v1", "ConfigMap", None, "cm1"));
    result
        .deletes
        .push(ResourceDelete::new("v1", "ConfigMap", None, "cm2"));
    result.upserts.push("deploy-1".to_string());

    let mut inner: RecordingExecutor<String, String> = RecordingExecutor::new();
    let mut delete_errors: Vec<TestExecutorError> = Vec::new();
    // Should succeed despite delete errors
    let action = drive(&result, |effect| match effect {
        Effect::ApplyUpsert(i) => {
            inner.execute_upsert(&result.upserts[i]);
            true
        }
        Effect::ApplyStatusUpdate(i) => {
            inner.execute_status_update(&result.status_updates[i]);
            true
        }
        Effect::ApplyDelete(_) => {
            delete_errors.push(TestExecutorError("simulated delete failure".to_string()));
            false
        }
        Effect::LogEvent(_) => true,
    })
    .unwrap();
    // Default requeue (None -> 300s)
    assert_eq!(action, Action::requeue(std_secs(300)));

    // Upsert should still have been recorded
    assert_eq!(inner.upserts().len(), 1);
    assert_eq!(delete_errors.len(), 2);
}

#[test]
fn recording_executor_records_all_effects() {
    let mut executor: RecordingExecutor<String, String> = RecordingExecutor::new();

    let mut result: ReconcileResult<String, String> = ReconcileResult::new();
    result.upserts.push("deploy-1".to_string());
    result.upserts.push("svc-1".to_string());
    result.status_updates.push("gw-status".to_string());
    result
        .deletes
        .push(ResourceDelete::namespaced("v1", "ConfigMap", "ns", "cm"));

    drive(&result, |effect| {
        match effect {
            Effect::ApplyUpsert(i) => executor.execute_upsert(&result.upserts[i]),
            Effect::ApplyStatusUpdate(i) => executor.execute_status_update(&result.status_updates[i]),
            Effect::ApplyDelete(i) => executor.execute_delete(&result.deletes[i]),
            Effect::LogEvent(_) => {}
        }
        true
    })
    .unwrap();

    assert_eq!(executor.upserts(), vec!["deploy-1", "svc-1"]);
    assert_eq!(executor.status_updates(), vec!["gw-status"]);
    assert_eq!(executor.deletes().len(), 1);
    assert_eq!(executor.deletes()[0].name, "cm");
}

// Further cases.

#[test]
fn events_are_logged_first_and_every_effect_once() {
    let mut result: ReconcileResult<u8, u8> = ReconcileResult::new()
        .emit_normal("A", "a")
        .emit_warning("B", "b");
    result.upserts.push(1);
    result.status_updates.push(2);
    result.status_updates.push(3);
    result.deletes.push(ResourceDelete::new("v1", "Pod", None, "p"));
    let mut seen: Vec<Effect> = Vec::new();
    drive(&result, |effect| {
        seen.push(effect);
        true
    })
    .unwrap();
    assert_eq!(
        seen,
        vec![
            Effect::LogEvent(0),
            Effect::LogEvent(1),
            Effect::ApplyStatusUpdate(0),
            Effect::ApplyStatusUpdate(1),
            Effect::ApplyUpsert(0),
            Effect::ApplyDelete(0),
        ]
    );
}

#[test]
fn failed_status_update_stops_before_upserts() {
    let mut result: ReconcileResult<u8, u8> = ReconcileResult::new();
    result.upserts.push(1);
    result.status_updates.push(2);
    result.status_updates.push(3);
    let mut seen: Vec<Effect> = Vec::new();
    let end = drive(&result, |effect| {
        seen.push(effect);
        effect != Effect::ApplyStatusUpdate(0)
    });
    assert_eq!(end, Err(Effect::ApplyStatusUpdate(0)));
    assert_eq!(seen, vec![Effect::ApplyStatusUpdate(0)]);
}

#[test]
fn failed_upsert_stops_before_deletes() {
    let mut result: ReconcileResult<u8, u8> = ReconcileResult::new();
    result.upserts.push(1);
    result.upserts.push(2);
    result.deletes.push(ResourceDelete::new("v1", "Pod", None, "p"));
    let mut seen: Vec<Effect> = Vec::new();
    let end = drive(&result, |effect| {
        seen.push(effect);
        effect != Effect::ApplyUpsert(1)
    });
    assert_eq!(end, Err(Effect::ApplyUpsert(1)));
    assert_eq!(seen, vec![Effect::ApplyUpsert(0), Effect::ApplyUpsert(1)]);
}

#[test]
fn empty_result_finishes_at_once() {
    let result: ReconcileResult<u8, u8> = ReconcileResult::new();
    let execution = Execution::new(&result);
    assert_eq!(execution.next_step(), Step::Finish);
}

#[test]
fn requeue_delay_values() {
    assert_eq!(requeue_delay(None), Duration::from_secs(300));
    assert_eq!(requeue_delay(Some(RequeueDecision::Never)), Duration::from_secs(3600));
    assert_eq!(
        requeue_delay(Some(RequeueDecision::OnError(Duration::new(1, 2)))),
        Duration::new(1, 2)
    );
    let action = requeue_to_action(Some(RequeueDecision::After(Duration::new(2, 500))));
    assert_eq!(action, Action::requeue(std::time::Duration::new(2, 500)));
    assert_ne!(action, Action::requeue(std_secs(2)));
}
