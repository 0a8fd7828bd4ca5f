use functional_kube::result::{
    Duration, EventSeverity, ReconcileEvent, ReconcileResult, RequeueDecision, ResourceDelete,
};

#[test]
fn requeue_min_after_after() {
    assert_eq!(
        RequeueDecision::After(Duration::from_secs(5))
            .min(RequeueDecision::After(Duration::from_secs(10))),
        RequeueDecision::After(Duration::from_secs(5))
    );
}

#[test]
fn requeue_min_never_after() {
    assert_eq!(
        RequeueDecision::Never.min(RequeueDecision::After(Duration::from_secs(5))),
        RequeueDecision::After(Duration::from_secs(5))
    );
}

#[test]
fn requeue_min_after_never() {
    assert_eq!(
        RequeueDecision::After(Duration::from_secs(5)).min(RequeueDecision::Never),
        RequeueDecision::After(Duration::from_secs(5))
    );
}

#[test]
fn requeue_min_on_error_on_error() {
    assert_eq!(
        RequeueDecision::OnError(Duration::from_secs(5))
            .min(RequeueDecision::OnError(Duration::from_secs(10))),
        RequeueDecision::OnError(Duration::from_secs(5))
    );
}

#[test]
fn requeue_min_after_on_error_takes_precedence() {
    assert_eq!(
        RequeueDecision::After(Duration::from_secs(60))
            .min(RequeueDecision::OnError(Duration::from_secs(30))),
        RequeueDecision::OnError(Duration::from_secs(30))
    );
}

#[test]
fn requeue_min_on_error_after_takes_precedence() {
    assert_eq!(
        RequeueDecision::OnError(Duration::from_secs(30))
            .min(RequeueDecision::After(Duration::from_secs(60))),
        RequeueDecision::OnError(Duration::from_secs(30))
    );
}

#[test]
fn requeue_duration() {
    assert_eq!(
        RequeueDecision::After(Duration::from_secs(10)).duration(),
        Some(Duration::from_secs(10))
    );
    assert_eq!(
        RequeueDecision::OnError(Duration::from_secs(5)).duration(),
        Some(Duration::from_secs(5))
    );
    assert_eq!(RequeueDecision::Never.duration(), None);
}

#[test]
fn requeue_is_error() {
    assert!(!RequeueDecision::After(Duration::from_secs(10)).is_error());
    assert!(RequeueDecision::OnError(Duration::from_secs(5)).is_error());
    assert!(!RequeueDecision::Never.is_error());
}

#[test]
fn merge_combines_all_fields() {
    let r1: ReconcileResult<String, String> = ReconcileResult::new()
        .with_requeue(Duration::from_secs(60))
        .emit_normal("Created", "Resource created");

    let mut r2: ReconcileResult<String, String> = ReconcileResult::new()
        .with_requeue(Duration::from_secs(30))
        .emit_warning("Updated", "Resource updated");
    r2.upserts.push("upsert1".to_string());
    r2.status_updates.push("status1".to_string());

    let merged = r1
        .delete_resource(ResourceDelete::namespaced(
            "apps/v1",
            "Deployment",
            "default",
            "my-deploy",
        ))
        .merge(r2);

    assert_eq!(merged.events.len(), 2);
    assert_eq!(merged.upserts.len(), 1);
    assert_eq!(merged.deletes.len(), 1);
    assert_eq!(merged.status_updates.len(), 1);
    assert_eq!(
        merged.requeue,
        Some(RequeueDecision::After(Duration::from_secs(30)))
    );
}

#[test]
fn merge_none_requeue_with_some() {
    let r1: ReconcileResult<String, String> = ReconcileResult::new();
    let r2: ReconcileResult<String, String> =
        ReconcileResult::new().with_requeue(Duration::from_secs(10));

    let merged = r1.merge(r2);
    assert_eq!(
        merged.requeue,
        Some(RequeueDecision::After(Duration::from_secs(10)))
    );
}

#[test]
fn has_accessors() {
    let mut r: ReconcileResult<String, String> = ReconcileResult::new();
    assert!(!r.has_upserts());
    assert!(!r.has_deletes());
    assert!(!r.has_status_updates());

    r.upserts.push("u".to_string());
    assert!(r.has_upserts());

    let r = r.delete_resource(ResourceDelete::new("v1", "ConfigMap", None, "cm"));
    assert!(r.has_deletes());
}

#[test]
fn resource_delete_namespaced() {
    let delete = ResourceDelete::namespaced("apps/v1", "Deployment", "default", "my-deploy");
    assert_eq!(delete.api_version, "apps/v1");
    assert_eq!(delete.kind, "Deployment");
    assert_eq!(delete.namespace, Some("default".to_string()));
    assert_eq!(delete.name, "my-deploy");
}

#[test]
fn resource_delete_cluster_scoped() {
    let delete = ResourceDelete::new("v1", "Namespace", None, "my-ns");
    assert_eq!(delete.namespace, None);
    assert_eq!(delete.name, "my-ns");
}

// Further cases.

#[test]
fn merge_keeps_order_of_effects_and_events() {
    let mut a: ReconcileResult<String, String> = ReconcileResult::new().emit_normal("A", "first");
    a.upserts.push("a1".to_string());
    let mut b: ReconcileResult<String, String> = ReconcileResult::new().emit_warning("B", "second");
    b.upserts.push("b1".to_string());
    b.upserts.push("b2".to_string());
    let m = a.merge(b);
    assert_eq!(m.upserts, vec!["a1", "b1", "b2"]);
    assert_eq!(m.events[0].reason, "A");
    assert_eq!(m.events[0].severity, EventSeverity::Normal);
    assert_eq!(m.events[1].reason, "B");
    assert_eq!(m.events[1].message, "second");
    assert_eq!(m.events[1].severity, EventSeverity::Warning);
    assert_eq!(m.requeue, None);
}

#[test]
fn merge_with_empty_changes_nothing() {
    let r: ReconcileResult<String, String> = ReconcileResult::new()
        .with_requeue_on_error(Duration::from_secs(7))
        .emit_normal("R", "m");
    let left = ReconcileResult::<String, String>::new().merge(r.clone());
    let right = r.clone().merge(ReconcileResult::new());
    assert_eq!(left.requeue, r.requeue);
    assert_eq!(right.requeue, r.requeue);
    assert_eq!(left.events.len(), 1);
    assert_eq!(right.events.len(), 1);
}

#[test]
fn merge_is_associative_on_requeue() {
    let a = || ReconcileResult::<u8, u8>::new().with_requeue(Duration::from_secs(40));
    let b = || ReconcileResult::<u8, u8>::new().with_requeue_on_error(Duration::from_secs(50));
    let c = || ReconcileResult::<u8, u8>::new().with_requeue(Duration::from_secs(20));
    let left = a().merge(b()).merge(c());
    let right = a().merge(b().merge(c()));
    assert_eq!(left.requeue, right.requeue);
    assert_eq!(left.requeue, Some(RequeueDecision::OnError(Duration::from_secs(20))));
}

#[test]
fn requeue_min_laws_on_values() {
    let after = RequeueDecision::After(Duration::from_secs(3));
    let error = RequeueDecision::OnError(Duration::new(3, 5));
    assert_eq!(after.min(error), error.min(after));
    assert_eq!(after.min(error), RequeueDecision::OnError(Duration::from_secs(3)));
    assert_eq!(after.min(after), after);
    assert_eq!(RequeueDecision::Never.min(RequeueDecision::Never), RequeueDecision::Never);
}

#[test]
fn with_requeue_on_error_sets_error_decision() {
    let r: ReconcileResult<u8, u8> =
        ReconcileResult::new().with_requeue(Duration::from_secs(1)).with_requeue_on_error(Duration::from_secs(2));
    assert_eq!(r.requeue, Some(RequeueDecision::OnError(Duration::from_secs(2))));
}

#[test]
fn emit_event_appends() {
    let event = ReconcileEvent {
        severity: EventSeverity::Warning,
        reason: "Reason".to_string(),
        message: "Message".to_string(),
    };
    let r: ReconcileResult<u8, u8> = ReconcileResult::new().emit_event(event);
    assert_eq!(r.events.len(), 1);
    assert_eq!(r.events[0].reason, "Reason");
    assert_eq!(r.events[0].severity, EventSeverity::Warning);
}

#[test]
fn duration_parts() {
    let d = Duration::new(5, 2_500_000_000);
    assert_eq!(d.as_secs(), 7);
    assert_eq!(d.subsec_nanos(), 500_000_000);
    assert_eq!(Duration::from_secs(9).as_secs(), 9);
    assert_eq!(Duration::from_secs(9).subsec_nanos(), 0);
    assert_eq!(Duration::new(4, 1).min(Duration::new(4, 0)), Duration::new(4, 0));
    assert_eq!(Duration::new(3, 999).min(Duration::new(4, 0)), Duration::new(3, 999));
}
