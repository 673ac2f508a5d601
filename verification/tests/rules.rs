use intentdiff::semantic::rule::Rule;
use intentdiff::semantic::rules::auth::AuthModeRule;
use intentdiff::semantic::rules::availability::ReplicaPostureRule;
use intentdiff::semantic::rules::network::PublicExposureRule;
use intentdiff::semantic::rules::persistence::{EmptyDirRule, StorageModeRule};
use intentdiff::semantic::rules::security::RunAsNonRootRule;
use intentdiff::semantic::rules::transport::TlsEnabledRule;
use intentdiff::{
    ObservationValue, RuleId, SignalCategory, Snapshot, SnapshotParseError,
};

fn snapshot_new(source: &str, raw_content: &str) -> Result<Snapshot, SnapshotParseError> {
    Snapshot::new(source.into(), raw_content.into())
}

fn snapshot_with(content: &str) -> Snapshot {
    snapshot_new("test.yaml", content).expect("snapshot should parse")
}

#[test]
fn defaults_to_none_without_auth_hints() {
    let snapshot = snapshot_with(
        "kind: Deployment\nmetadata:\n  name: web\nspec:\n  template:\n    spec:\n      containers:\n        - name: web\n          image: nginx\n",
    );
    let document = &snapshot.documents()[0];

    let observation = AuthModeRule.evaluate(document).expect("rule should match");

    assert_eq!(observation.value, ObservationValue::Keyword("none"));
}

#[test]
fn detects_basic_auth_from_auth_mode_env() {
    let snapshot = snapshot_with(
        "kind: Deployment\nmetadata:\n  name: web\nspec:\n  template:\n    spec:\n      containers:\n        - name: web\n          image: nginx\n          env:\n            - name: AUTH_MODE\n              value: basic\n",
    );
    let document = &snapshot.documents()[0];

    let observation = AuthModeRule.evaluate(document).expect("rule should match");

    assert_eq!(observation.value, ObservationValue::Keyword("basic"));
}

#[test]
fn detects_oidc_from_oidc_envs() {
    let snapshot = snapshot_with(
        "kind: Deployment\nmetadata:\n  name: web\nspec:\n  template:\n    spec:\n      containers:\n        - name: web\n          image: nginx\n          env:\n            - name: OIDC_ISSUER_URL\n              value: https://issuer.example.com\n            - name: OIDC_CLIENT_ID\n              value: web\n",
    );
    let document = &snapshot.documents()[0];

    let observation = AuthModeRule.evaluate(document).expect("rule should match");

    assert_eq!(observation.value, ObservationValue::Keyword("oidc"));
}

#[test]
fn emits_unknown_for_unrecognized_auth_mode() {
    let snapshot = snapshot_with(
        "kind: Deployment\nmetadata:\n  name: web\nspec:\n  template:\n    spec:\n      containers:\n        - name: web\n          image: nginx\n          env:\n            - name: AUTH_MODE\n              value: kerberos\n",
    );
    let document = &snapshot.documents()[0];

    let observation = AuthModeRule.evaluate(document).expect("rule should match");

    assert_eq!(observation.value, ObservationValue::Keyword("unknown"));
}

#[test]
fn auth_description_and_non_workloads() {
    let snapshot = snapshot_with(
        "kind: Deployment\nmetadata:\n  name: web\nspec:\n  template:\n    spec:\n      containers:\n        - name: web\n          image: nginx\n",
    );
    let observation = AuthModeRule.evaluate(&snapshot.documents()[0]).expect("rule should match");
    assert_eq!(observation.description, "Deployment/web uses no authentication");

    let service = snapshot_with("kind: Service\nmetadata:\n  name: web\n");
    assert!(AuthModeRule.evaluate(&service.documents()[0]).is_none());
}

#[test]
fn missing_replicas_defaults_to_single() {
    let snapshot = snapshot_with("kind: Deployment\nmetadata:\n  name: web\nspec:\n  template:\n    spec:\n      containers: []\n");
    let observation = ReplicaPostureRule.evaluate(&snapshot.documents()[0]).expect("rule should match");

    assert_eq!(observation.value, ObservationValue::Keyword("single_replica"));
}

#[test]
fn multiple_replicas_are_replicated() {
    let snapshot = snapshot_with("kind: Deployment\nmetadata:\n  name: web\nspec:\n  replicas: 3\n  template:\n    spec:\n      containers: []\n");
    let observation = ReplicaPostureRule.evaluate(&snapshot.documents()[0]).expect("rule should match");

    assert_eq!(observation.value, ObservationValue::Keyword("replicated"));
}

#[test]
fn zero_replicas_are_scaled_to_zero() {
    let snapshot = snapshot_with("kind: StatefulSet\nmetadata:\n  name: db\nspec:\n  replicas: 0\n");
    let observation = ReplicaPostureRule.evaluate(&snapshot.documents()[0]).expect("rule should match");

    assert_eq!(observation.value, ObservationValue::Keyword("scaled_to_zero"));
    assert_eq!(observation.description, "StatefulSet/db has a scaled_to_zero posture");
}

#[test]
fn service_cluster_ip_is_internal() {
    let snapshot = snapshot_with("kind: Service\nmetadata:\n  name: web\nspec:\n  type: ClusterIP\n");
    let observation = PublicExposureRule.evaluate(&snapshot.documents()[0]).expect("rule should match");

    assert_eq!(observation.value, ObservationValue::Keyword("internal"));
}

#[test]
fn service_load_balancer_is_public() {
    let snapshot = snapshot_with("kind: Service\nmetadata:\n  name: web\nspec:\n  type: LoadBalancer\n");
    let observation = PublicExposureRule.evaluate(&snapshot.documents()[0]).expect("rule should match");

    assert_eq!(observation.value, ObservationValue::Keyword("public"));
}

#[test]
fn ingress_is_public() {
    let snapshot = snapshot_with("kind: Ingress\nmetadata:\n  name: edge\n");
    let observation = PublicExposureRule.evaluate(&snapshot.documents()[0]).expect("rule should match");

    assert_eq!(observation.value, ObservationValue::Keyword("public"));
}

#[test]
fn service_without_type_is_internal() {
    let snapshot = snapshot_with("kind: Service\nmetadata:\n  name: web\n");
    let observation = PublicExposureRule.evaluate(&snapshot.documents()[0]).expect("rule should match");

    assert_eq!(observation.value, ObservationValue::Keyword("internal"));
    assert_eq!(observation.description, "Service/web is only internally exposed");
}

#[test]
fn detects_emptydir_when_present() {
    let rule = EmptyDirRule;
    let snapshot = snapshot_with(
        "kind: Deployment\nspec:\n  template:\n    spec:\n      volumes:\n        - emptyDir: {}\n",
    );

    let observation = rule.evaluate(&snapshot.documents()[0]).expect("rule should match");

    assert_eq!(observation.value, ObservationValue::Bool(true));
    assert!(observation.description.contains("emptyDir"));
}

#[test]
fn does_not_detect_emptydir_when_absent() {
    let rule = EmptyDirRule;
    let snapshot = snapshot_with(
        "kind: Deployment\nspec:\n  template:\n    spec:\n      volumes:\n        - name: data\n          persistentVolumeClaim:\n            claimName: app-data\n",
    );

    let observation = rule.evaluate(&snapshot.documents()[0]).expect("rule should emit observation");

    assert_eq!(observation.value, ObservationValue::Bool(false));
}

#[test]
fn ignores_documents_without_volume_context() {
    let rule = EmptyDirRule;
    let snapshot = snapshot_with("kind: Service\nmetadata:\n  name: web\n");

    assert!(rule.evaluate(&snapshot.documents()[0]).is_none());
}

#[test]
fn persistence_meta_is_correct() {
    let rule = EmptyDirRule;
    let meta = rule.meta();

    assert_eq!(meta.id, RuleId::PERSISTENCE_EMPTYDIR());
    assert_eq!(meta.category, SignalCategory::Persistence);
    assert!(meta.rationale.contains("durability"));
}

#[test]
fn detects_storage_mode_as_pvc() {
    let rule = StorageModeRule;
    let snapshot = snapshot_with(
        "kind: Deployment\nspec:\n  template:\n    spec:\n      volumes:\n        - name: data\n          persistentVolumeClaim:\n            claimName: app-data\n",
    );

    let observation = rule.evaluate(&snapshot.documents()[0]).expect("rule should match");

    assert_eq!(observation.value, ObservationValue::Keyword("persistent_volume_claim"));
}

#[test]
fn detects_storage_mode_as_mixed() {
    let rule = StorageModeRule;
    let snapshot = snapshot_with(
        "kind: Deployment\nspec:\n  template:\n    spec:\n      volumes:\n        - name: cache\n          emptyDir: {}\n        - name: data\n          persistentVolumeClaim:\n            claimName: app-data\n",
    );

    let observation = rule.evaluate(&snapshot.documents()[0]).expect("rule should match");

    assert_eq!(observation.value, ObservationValue::Keyword("mixed"));
}

#[test]
fn cronjob_volumes_and_empty_storage() {
    let snapshot = snapshot_with(
        "kind: CronJob\nmetadata:\n  name: nightly\nspec:\n  jobTemplate:\n    spec:\n      template:\n        spec:\n          volumes: []\n",
    );
    let observation = StorageModeRule.evaluate(&snapshot.documents()[0]).expect("rule should match");

    assert_eq!(observation.value, ObservationValue::Keyword("none"));
    assert_eq!(observation.description, "CronJob/nightly uses none storage mode");
}

#[test]
fn pod_level_non_root_is_enforced() {
    let snapshot = snapshot_with(
        "kind: Deployment\nmetadata:\n  name: web\nspec:\n  template:\n    spec:\n      securityContext:\n        runAsNonRoot: true\n      containers:\n        - name: web\n          image: nginx\n",
    );
    let observation = RunAsNonRootRule.evaluate(&snapshot.documents()[0]).expect("rule should match");

    assert_eq!(observation.value, ObservationValue::Keyword("enforced"));
}

#[test]
fn mixed_container_settings_are_partial() {
    let snapshot = snapshot_with(
        "kind: Deployment\nmetadata:\n  name: web\nspec:\n  template:\n    spec:\n      containers:\n        - name: web\n          image: nginx\n          securityContext:\n            runAsNonRoot: true\n        - name: sidecar\n          image: busybox\n",
    );
    let observation = RunAsNonRootRule.evaluate(&snapshot.documents()[0]).expect("rule should match");

    assert_eq!(observation.value, ObservationValue::Keyword("partial"));
}

#[test]
fn detects_tls_enabled_when_present() {
    let rule = TlsEnabledRule;
    let snapshot = snapshot_with("tls: true");

    let observation = rule.evaluate(&snapshot.documents()[0]).expect("rule should match");

    assert_eq!(observation.value, ObservationValue::Bool(true));
    assert!(observation.description.contains("enables TLS"));
}

#[test]
fn detects_ingress_tls_from_structured_spec() {
    let rule = TlsEnabledRule;
    let snapshot = snapshot_with(
        "kind: Ingress\nmetadata:\n  name: web\nspec:\n  tls:\n    - secretName: edge-cert\n",
    );

    let observation = rule.evaluate(&snapshot.documents()[0]).expect("rule should match");

    assert_eq!(observation.value, ObservationValue::Bool(true));
}

#[test]
fn detects_ingress_without_tls_as_disabled() {
    let rule = TlsEnabledRule;
    let snapshot = snapshot_with(
        "kind: Ingress\nmetadata:\n  name: web\nspec:\n  rules:\n    - host: dev.example.local\n",
    );

    let observation = rule.evaluate(&snapshot.documents()[0]).expect("rule should match");

    assert_eq!(observation.value, ObservationValue::Bool(false));
}

#[test]
fn does_not_detect_tls_when_absent() {
    let rule = TlsEnabledRule;
    let snapshot = snapshot_with("foo: bar");

    assert!(rule.evaluate(&snapshot.documents()[0]).is_none());
}

#[test]
fn transport_meta_is_correct() {
    let rule = TlsEnabledRule;
    let meta = rule.meta();

    assert_eq!(meta.id, RuleId::TRANSPORT_TLS_ENABLED());
    assert_eq!(meta.category, SignalCategory::Transport);
    assert!(meta.rationale.contains("encrypted"));
}

#[test]
fn nested_tls_false_is_disabled() {
    let snapshot = snapshot_with("kind: Service\nmetadata:\n  name: api\nspec:\n  listener:\n    tls: false\n");
    let observation = TlsEnabledRule.evaluate(&snapshot.documents()[0]).expect("rule should match");

    assert_eq!(observation.value, ObservationValue::Bool(false));
    assert_eq!(observation.description, "Service/api disables TLS");
}

#[test]
fn emptydir_and_storage_mode_agree() {
    let snapshot = snapshot_with(
        "kind: Pod\nmetadata:\n  name: p\nspec:\n  volumes:\n    - name: cache\n      emptyDir: {}\n",
    );
    let document = &snapshot.documents()[0];

    let empty_dir = EmptyDirRule.evaluate(document).expect("rule should match");
    let storage = StorageModeRule.evaluate(document).expect("rule should match");

    assert_eq!(empty_dir.value, ObservationValue::Bool(true));
    assert_eq!(storage.value, ObservationValue::Keyword("empty_dir"));
}
