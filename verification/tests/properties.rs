//! Scenario tests for the library's stated properties: identity stability,
//! sensitivity and scoping; merge precedence; port-resolution order; the
//! discovery fragment; validator filtering; idempotence; and artifact
//! naming.

use spark_cluster_config::crd::ConfigOption;
use spark_cluster_config::crd::SparkClusterSpec;
use spark_cluster_config::crd::SparkNode;
use spark_cluster_config::crd::SparkNodeSelector;
use spark_cluster_config::crd::SparkNodeType;
use spark_cluster_config::crd::SparkVersion;
use spark_cluster_config::discovery::adapt_worker_command;
use spark_cluster_config::discovery::get_master_urls;
use spark_cluster_config::identity::selector_identity;
use spark_cluster_config::identity::selector_identity_string;
use spark_cluster_config::merge::get_config_properties;
use spark_cluster_config::merge::process_product_config;
use spark_cluster_config::merge::Classification;
use spark_cluster_config::render::convert_map_to_string;
use spark_cluster_config::render::create_config_map_name;
use spark_cluster_config::render::create_config_maps;

fn bare_selector(node_name: &str) -> SparkNodeSelector {
    SparkNodeSelector {
        node_name: node_name.to_string(),
        instances: 1,
        config: None,
        env: None,
        master_port: None,
        master_web_ui_port: None,
        cores: None,
        memory: None,
        worker_port: None,
        worker_web_ui_port: None,
        store_path: None,
        history_ui_port: None,
    }
}

fn option(name: &str, value: &str) -> ConfigOption {
    ConfigOption { name: name.to_string(), value: value.to_string() }
}

fn bare_spec() -> SparkClusterSpec {
    SparkClusterSpec {
        master: SparkNode { selectors: vec![bare_selector("m1")] },
        worker: SparkNode { selectors: vec![bare_selector("w1")] },
        history_server: None,
        version: SparkVersion::V3_0_1,
        secret: None,
        log_dir: None,
        max_port_retries: None,
    }
}

#[test]
fn identity_is_stable_under_scale() {
    let s1 = bare_selector("node-a");
    let mut s2 = bare_selector("node-a");
    s2.instances = 42;
    assert_eq!(
        selector_identity(SparkNodeType::Master, "demo", &s1),
        selector_identity(SparkNodeType::Master, "demo", &s2)
    );
    assert_eq!(
        selector_identity_string(SparkNodeType::Master, "demo", &s1),
        selector_identity_string(SparkNodeType::Master, "demo", &s2)
    );
}

#[test]
fn identity_is_sensitive_to_every_other_field() {
    let base = bare_selector("node-a");
    let id = |s: &SparkNodeSelector| selector_identity(SparkNodeType::Master, "demo", s);

    let mut changed = bare_selector("node-b");
    changed.instances = 1;
    assert_ne!(id(&base), id(&changed));

    let mut with_config = bare_selector("node-a");
    with_config.config = Some(vec![option("spark.master.port", "7000")]);
    assert_ne!(id(&base), id(&with_config));

    let mut with_other_value = bare_selector("node-a");
    with_other_value.config = Some(vec![option("spark.master.port", "7001")]);
    assert_ne!(id(&with_config), id(&with_other_value));

    let mut with_env = bare_selector("node-a");
    with_env.env = Some(vec![option("SPARK_MASTER_PORT", "7000")]);
    assert_ne!(id(&base), id(&with_env));
    assert_ne!(id(&with_config), id(&with_env));

    let mut with_port = bare_selector("node-a");
    with_port.master_port = Some(7000);
    assert_ne!(id(&base), id(&with_port));

    let mut with_memory = bare_selector("node-a");
    with_memory.memory = Some("2g".to_string());
    assert_ne!(id(&base), id(&with_memory));

    let mut with_store = bare_selector("node-a");
    with_store.store_path = Some("/data".to_string());
    assert_ne!(id(&base), id(&with_store));
}

#[test]
fn identity_is_scoped_by_role_and_cluster() {
    let s = bare_selector("node-a");
    let under_master = selector_identity(SparkNodeType::Master, "demo", &s);
    let under_worker = selector_identity(SparkNodeType::Worker, "demo", &s);
    let under_history = selector_identity(SparkNodeType::HistoryServer, "demo", &s);
    assert_ne!(under_master, under_worker);
    assert_ne!(under_master, under_history);
    assert_ne!(under_worker, under_history);

    let other_cluster = selector_identity(SparkNodeType::Master, "other", &s);
    assert_ne!(under_master, other_cluster);
}

#[test]
fn hashed_selectors_key_every_selector() {
    let mut spec = bare_spec();
    spec.master.selectors.push(bare_selector("m2"));
    let hashed = spec.get_hashed_selectors("demo");
    assert_eq!(hashed.master.len(), 2);
    assert_eq!(hashed.worker.len(), 1);
    assert!(hashed.history_server.is_none());
    assert_eq!(
        hashed.master[0].0,
        selector_identity_string(SparkNodeType::Master, "demo", &spec.master.selectors[0])
    );
    assert_eq!(hashed.master[1].1.node_name, "m2");
    assert_eq!(
        hashed.worker[0].0,
        selector_identity_string(SparkNodeType::Worker, "demo", &spec.worker.selectors[0])
    );

    spec.history_server = Some(SparkNode { selectors: vec![bare_selector("h1")] });
    let hashed = spec.get_hashed_selectors("demo");
    let history = hashed.history_server.expect("history-server selectors should be keyed");
    assert_eq!(history.len(), 1);
    assert_eq!(
        history[0].0,
        selector_identity_string(
            SparkNodeType::HistoryServer,
            "demo",
            &spec.history_server.as_ref().unwrap().selectors[0]
        )
    );
}

#[test]
fn precedence_user_override_wins() {
    let mut spec = bare_spec();
    spec.secret = Some("secret".to_string());

    // Without an override the derived authentication values appear.
    let derived = get_config_properties(&spec, &bare_selector("m1"));
    assert_eq!(derived.get("spark.authenticate"), Some(&"true".to_string()));
    assert_eq!(derived.get("spark.authenticate.secret"), Some(&"secret".to_string()));

    // A user override for the same key wins over the derived value.
    let mut selector = bare_selector("m1");
    selector.config = Some(vec![option("spark.authenticate", "false")]);
    let overridden = get_config_properties(&spec, &selector);
    assert_eq!(overridden.get("spark.authenticate"), Some(&"false".to_string()));
    assert_eq!(overridden.get("spark.authenticate.secret"), Some(&"secret".to_string()));
}

#[test]
fn precedence_defaults_without_overrides() {
    let spec = bare_spec();
    let props = get_config_properties(&spec, &bare_selector("m1"));
    // No secret: no authentication keys.
    assert!(props.get("spark.authenticate").is_none());
    assert!(props.get("spark.authenticate.secret").is_none());
    // Log directory falls back to the fixed path.
    assert_eq!(props.get("spark.eventLog.dir"), Some(&"/tmp".to_string()));
    assert_eq!(props.get("spark.history.fs.logDirectory"), Some(&"/tmp".to_string()));
    // Port retries default to zero.
    assert_eq!(props.get("spark.port.maxRetries"), Some(&"0".to_string()));
}

#[test]
fn duplicate_user_overrides_follow_last_writer_wins() {
    let spec = bare_spec();
    let mut selector = bare_selector("m1");
    selector.config = Some(vec![option("a", "1"), option("a", "2")]);
    let props = get_config_properties(&spec, &selector);
    assert_eq!(props.get("a"), Some(&"2".to_string()));
}

#[test]
fn port_resolution_order() {
    let make_node = |selector: SparkNodeSelector| SparkNode { selectors: vec![selector] };
    let urls_of = |node: &SparkNode| get_master_urls(node);

    // Properties override beats environment override.
    let mut s = bare_selector("m1");
    s.config = Some(vec![option("spark.master.port", "7000")]);
    s.env = Some(vec![option("SPARK_MASTER_PORT", "7500")]);
    s.master_port = Some(9999);
    assert_eq!(urls_of(&make_node(s)), vec!["m1:7000".to_string()]);

    // Without the properties override the environment override wins.
    let mut s = bare_selector("m1");
    s.env = Some(vec![option("SPARK_MASTER_PORT", "7500")]);
    s.master_port = Some(9999);
    assert_eq!(urls_of(&make_node(s)), vec!["m1:7500".to_string()]);

    // Without both, the typed port field is used.
    let mut s = bare_selector("m1");
    s.master_port = Some(9999);
    assert_eq!(urls_of(&make_node(s)), vec!["m1:9999".to_string()]);

    // Without any, the fixed default port is used.
    let s = bare_selector("m1");
    assert_eq!(urls_of(&make_node(s)), vec!["m1:7077".to_string()]);
}

#[test]
fn port_resolution_ignores_unrelated_keys() {
    // A properties list without the recognized key falls through to the
    // environment list.
    let mut s = bare_selector("m1");
    s.config = Some(vec![option("spark.something.else", "1")]);
    s.env = Some(vec![option("SPARK_MASTER_PORT", "7500")]);
    let node = SparkNode { selectors: vec![s] };
    assert_eq!(get_master_urls(&node), vec!["m1:7500".to_string()]);
}

#[test]
fn discovery_fragment_for_secondary_role() {
    let mut m1 = bare_selector("m1");
    m1.master_port = Some(7077);
    let mut m2 = bare_selector("m2");
    m2.master_port = Some(7078);
    let master = SparkNode { selectors: vec![m1, m2] };

    assert_eq!(
        adapt_worker_command(&SparkNodeType::Worker, &master),
        Some("spark://m1:7077,m2:7078".to_string())
    );
    // Defined only for the worker role.
    assert_eq!(adapt_worker_command(&SparkNodeType::Master, &master), None);
    assert_eq!(adapt_worker_command(&SparkNodeType::HistoryServer, &master), None);
}

#[test]
fn discovery_fragment_for_empty_master() {
    let master = SparkNode { selectors: vec![] };
    assert_eq!(
        adapt_worker_command(&SparkNodeType::Worker, &master),
        Some("spark://".to_string())
    );
}

#[test]
fn validator_filtering_keeps_only_accepted_keys() {
    let verdicts = vec![
        ("a".to_string(), Classification::Valid("1".to_string())),
        ("b".to_string(), Classification::Error("invalid".to_string())),
    ];
    let effective = process_product_config(&verdicts);
    assert_eq!(effective.len(), 1);
    assert_eq!(effective.get("a"), Some(&"1".to_string()));
    assert!(effective.get("b").is_none());
}

#[test]
fn validator_filtering_by_classification() {
    let verdicts = vec![
        ("default".to_string(), Classification::Default("x".to_string())),
        ("recommended".to_string(), Classification::Recommended("adjusted".to_string())),
        ("valid".to_string(), Classification::Valid("v".to_string())),
        (
            "warn".to_string(),
            Classification::Warn("w".to_string(), "suspicious".to_string()),
        ),
        ("error".to_string(), Classification::Error("bad".to_string())),
    ];
    let effective = process_product_config(&verdicts);
    assert_eq!(effective.len(), 2);
    assert!(effective.get("default").is_none());
    // The validator's returned value is written, not the submitted one.
    assert_eq!(effective.get("recommended"), Some(&"adjusted".to_string()));
    assert_eq!(effective.get("valid"), Some(&"v".to_string()));
    assert!(effective.get("warn").is_none());
    assert!(effective.get("error").is_none());
}

#[test]
fn merge_is_idempotent() {
    let mut spec = bare_spec();
    spec.secret = Some("secret".to_string());
    spec.log_dir = Some("/var/log/spark".to_string());
    let mut selector = bare_selector("m1");
    selector.config = Some(vec![option("spark.custom", "x"), option("spark.authenticate", "no")]);

    let first = get_config_properties(&spec, &selector);
    let second = get_config_properties(&spec, &selector);
    assert_eq!(
        convert_map_to_string(&first, " "),
        convert_map_to_string(&second, " ")
    );

    let verdicts = vec![
        ("a".to_string(), Classification::Valid("1".to_string())),
        ("b".to_string(), Classification::Recommended("2".to_string())),
        ("c".to_string(), Classification::Error("bad".to_string())),
    ];
    let once = process_product_config(&verdicts);
    let twice = process_product_config(&verdicts);
    assert_eq!(
        convert_map_to_string(&once, "="),
        convert_map_to_string(&twice, "=")
    );
}

#[test]
fn full_pipeline_renders_exact_artifact() {
    // Assemble the candidate, accept every key unchanged (an idempotent
    // validator), and render.
    let spec = bare_spec();
    let selector = bare_selector("m1");
    let candidate = get_config_properties(&spec, &selector);

    let mut properties_verdicts = Vec::new();
    let mut i = 0;
    while i < candidate.len() {
        let entry = candidate.entry_at(i);
        properties_verdicts.push((entry.name.clone(), Classification::Valid(entry.value.clone())));
        i += 1;
    }
    let env_verdicts = Vec::new();

    let artifacts =
        create_config_maps("demo", &SparkNodeType::Master, "12345", &properties_verdicts, &env_verdicts);
    assert_eq!(artifacts.len(), 1);
    assert_eq!(artifacts[0].name, "demo-master-12345-cm");
    assert_eq!(
        artifacts[0].data.get("spark-defaults.conf"),
        Some(
            &"spark.eventLog.enabled true\nspark.eventLog.dir /tmp\nspark.history.fs.logDirectory /tmp\nspark.port.maxRetries 0\n"
                .to_string()
        )
    );
    assert_eq!(artifacts[0].data.get("spark-env.sh"), Some(&"".to_string()));
}

#[test]
fn artifact_naming_is_deterministic() {
    assert_eq!(
        create_config_map_name("demo", &SparkNodeType::Master, "42"),
        "demo-master-42-cm"
    );
    assert_eq!(
        create_config_map_name("demo", &SparkNodeType::Master, "42"),
        create_config_map_name("demo", &SparkNodeType::Master, "42")
    );
}
