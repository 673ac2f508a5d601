use intentdiff::{diff_observations, IntentObservation, ObservationValue, ResourceRef, RuleId, SignalCategory};

fn observation(
    rule_id: RuleId,
    document_index: usize,
    category: SignalCategory,
    description: &str,
    value: ObservationValue,
) -> IntentObservation {
    IntentObservation {
        rule_id,
        resource: ResourceRef {
            document_index,
            kind: Some("Service".into()),
            name: Some(format!("resource-{document_index}")),
            namespace: Some("default".into()),
        },
        category,
        value,
        description: description.to_string(),
        source_path: "test.yaml".to_string(),
    }
}

fn unnamed(rule_id: RuleId, document_index: usize, value: ObservationValue) -> IntentObservation {
    IntentObservation {
        rule_id,
        resource: ResourceRef { document_index, kind: None, name: None, namespace: None },
        category: SignalCategory::Transport,
        value,
        description: "unnamed".to_string(),
        source_path: "test.yaml".to_string(),
    }
}

#[test]
fn identical_observations_produce_empty_diff() {
    let left = vec![observation(
        RuleId("test"),
        0,
        SignalCategory::Security,
        "tls enabled",
        ObservationValue::Bool(true),
    )];
    let right = left.clone();

    let result = diff_observations(&left, &right);

    assert!(result.added.is_empty());
    assert!(result.removed.is_empty());
    assert!(result.changed.is_empty());
}

#[test]
fn left_only_observation_detected() {
    let left = vec![observation(
        RuleId("test"),
        0,
        SignalCategory::Security,
        "tls enabled",
        ObservationValue::Bool(true),
    )];
    let right = vec![];

    let result = diff_observations(&left, &right);
    assert_eq!(result.removed.len(), 1);
    assert!(result.added.is_empty());
    assert!(result.changed.is_empty());
}

#[test]
fn value_change_is_detected_as_difference() {
    let left = vec![observation(
        RuleId("test"),
        0,
        SignalCategory::Security,
        "tls enabled",
        ObservationValue::Bool(true),
    )];
    let right = vec![observation(
        RuleId("test"),
        0,
        SignalCategory::Security,
        "tls disabled",
        ObservationValue::Bool(false),
    )];

    let result = diff_observations(&left, &right);

    assert!(result.added.is_empty());
    assert!(result.removed.is_empty());
    assert_eq!(result.changed.len(), 1);

    let change = &result.changed[0];
    assert_eq!(change.left.value, ObservationValue::Bool(true));
    assert_eq!(change.right.value, ObservationValue::Bool(false));
}

#[test]
fn same_rule_for_multiple_resources_does_not_collapse() {
    let left = vec![
        observation(
            RuleId("test"),
            0,
            SignalCategory::Security,
            "api enables tls",
            ObservationValue::Bool(true),
        ),
        observation(
            RuleId("test"),
            1,
            SignalCategory::Security,
            "admin enables tls",
            ObservationValue::Bool(true),
        ),
    ];
    let right = vec![observation(
        RuleId("test"),
        0,
        SignalCategory::Security,
        "api enables tls",
        ObservationValue::Bool(true),
    )];

    let result = diff_observations(&left, &right);

    assert_eq!(result.removed.len(), 1);
    assert_eq!(result.removed[0].resource.document_index, 1);
}

#[test]
fn named_resources_match_even_when_document_order_differs() {
    let left = vec![observation(
        RuleId("test"),
        0,
        SignalCategory::Security,
        "api enables tls",
        ObservationValue::Bool(true),
    )];
    let right = vec![IntentObservation {
        rule_id: RuleId("test"),
        resource: ResourceRef {
            document_index: 9,
            kind: Some("Service".into()),
            name: Some("resource-0".into()),
            namespace: Some("default".into()),
        },
        category: SignalCategory::Security,
        value: ObservationValue::Bool(false),
        description: "api disables tls".into(),
        source_path: "test.yaml".into(),
    }];

    let result = diff_observations(&left, &right);

    assert!(result.added.is_empty());
    assert!(result.removed.is_empty());
    assert_eq!(result.changed.len(), 1);
}

#[test]
fn unnamed_resources_match_by_document_position() {
    let left = vec![unnamed(RuleId("test"), 0, ObservationValue::Bool(true))];
    let right = vec![unnamed(RuleId("test"), 1, ObservationValue::Bool(true))];

    let result = diff_observations(&left, &right);

    assert_eq!(result.removed.len(), 1);
    assert_eq!(result.added.len(), 1);
    assert!(result.changed.is_empty());
}

#[test]
fn diff_lists_come_out_in_key_order() {
    let left = vec![
        observation(RuleId("z.rule"), 0, SignalCategory::Security, "z", ObservationValue::Bool(true)),
        observation(RuleId("a.rule"), 2, SignalCategory::Security, "a2", ObservationValue::Bool(true)),
        observation(RuleId("a.rule"), 1, SignalCategory::Security, "a1", ObservationValue::Bool(true)),
    ];
    let right = vec![];

    let result = diff_observations(&left, &right);

    assert_eq!(result.removed.len(), 3);
    assert_eq!(result.removed[0].rule_id, RuleId("a.rule"));
    assert_eq!(result.removed[0].resource.document_index, 1);
    assert_eq!(result.removed[1].resource.document_index, 2);
    assert_eq!(result.removed[2].rule_id, RuleId("z.rule"));
}

#[test]
fn later_observation_with_same_key_wins() {
    let left = vec![
        observation(RuleId("test"), 0, SignalCategory::Security, "first", ObservationValue::Bool(false)),
        observation(RuleId("test"), 0, SignalCategory::Security, "second", ObservationValue::Bool(true)),
    ];
    let right = vec![observation(RuleId("test"), 0, SignalCategory::Security, "right", ObservationValue::Bool(true))];

    let result = diff_observations(&left, &right);

    assert!(result.changed.is_empty());
    assert!(result.added.is_empty());
    assert!(result.removed.is_empty());
}

#[test]
fn swapping_sides_swaps_added_and_removed() {
    let left = vec![
        observation(RuleId("test"), 0, SignalCategory::Security, "l0", ObservationValue::Bool(true)),
        observation(RuleId("test"), 1, SignalCategory::Security, "l1", ObservationValue::Bool(true)),
    ];
    let right = vec![
        observation(RuleId("test"), 1, SignalCategory::Security, "r1", ObservationValue::Bool(false)),
        observation(RuleId("test"), 2, SignalCategory::Security, "r2", ObservationValue::Bool(true)),
    ];

    let forward = diff_observations(&left, &right);
    let backward = diff_observations(&right, &left);

    assert_eq!(forward.added, backward.removed);
    assert_eq!(forward.removed, backward.added);
    assert_eq!(forward.changed.len(), 1);
    assert_eq!(backward.changed.len(), 1);
    assert_eq!(forward.changed[0].left, backward.changed[0].right);
    assert_eq!(forward.changed[0].right, backward.changed[0].left);
}

#[test]
fn input_order_does_not_change_the_diff() {
    let a = observation(RuleId("a.rule"), 0, SignalCategory::Security, "a", ObservationValue::Bool(true));
    let b = observation(RuleId("b.rule"), 1, SignalCategory::Security, "b", ObservationValue::Bool(true));
    let c = observation(RuleId("c.rule"), 2, SignalCategory::Security, "c", ObservationValue::Bool(false));
    let c_changed = observation(RuleId("c.rule"), 2, SignalCategory::Security, "c", ObservationValue::Bool(true));

    let first = diff_observations(&[a.clone(), b.clone(), c.clone()], &[c_changed.clone()]);
    let second = diff_observations(&[c.clone(), b.clone(), a.clone()], &[c_changed.clone()]);

    assert_eq!(first.removed, second.removed);
    assert_eq!(first.removed, vec![a, b]);
    assert_eq!(first.changed.len(), 1);
    assert_eq!(second.changed[0].left, c);
}
