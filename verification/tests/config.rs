//! Tests of the merge engine, the discovery resolver and the rendering
//! layer, built around a representative cluster fixture: four master
//! selectors exercising each step of the port-resolution precedence, and a
//! worker selector with typed resource fields.

use spark_cluster_config::crd::ConfigOption;
use spark_cluster_config::crd::SparkClusterSpec;
use spark_cluster_config::crd::SparkNode;
use spark_cluster_config::crd::SparkNodeSelector;
use spark_cluster_config::crd::SparkNodeType;
use spark_cluster_config::crd::SparkVersion;
use spark_cluster_config::discovery::adapt_worker_command;
use spark_cluster_config::discovery::create_master_url;
use spark_cluster_config::discovery::get_master_urls;
use spark_cluster_config::merge::create_required_startup_env;
use spark_cluster_config::merge::get_config_properties;
use spark_cluster_config::merge::get_env_variables;
use spark_cluster_config::merge::Classification;
use spark_cluster_config::render::create_config_map_name;
use spark_cluster_config::render::create_config_maps;

const MASTER_SELECTOR_1_NODE_NAME: &str = "master-node-1";
const MASTER_SELECTOR_1_CONFIG_PORT: usize = 10000;
const MASTER_SELECTOR_2_NODE_NAME: &str = "master-node-2";
const MASTER_SELECTOR_2_ENV_PORT: usize = 11000;
const MASTER_SELECTOR_3_NODE_NAME: &str = "master-node-3";
const MASTER_SELECTOR_3_PORT: usize = 12000;
const MASTER_SELECTOR_4_NODE_NAME: &str = "master-node-4";
const MASTER_DEFAULT_PORT: usize = 7077;

const CLUSTER_LOG_DIR: &str = "/tmp/spark-events";
const CLUSTER_SECRET: &str = "secret";
const CLUSTER_MAX_PORT_RETRIES: usize = 3;

const WORKER_SELECTOR_1_CORES: usize = 2;
const WORKER_SELECTOR_1_ENV_MEMORY: &str = "3g";

fn bare_selector(node_name: &str) -> SparkNodeSelector {
    SparkNodeSelector {
        node_name: node_name.to_string(),
        instances: 1,
        config: None,
        env: None,
        master_port: None,
        master_web_ui_port: None,
        cores: None,
        memory: None,
        worker_port: None,
        worker_web_ui_port: None,
        store_path: None,
        history_ui_port: None,
    }
}

fn option(name: &str, value: &str) -> ConfigOption {
    ConfigOption { name: name.to_string(), value: value.to_string() }
}

fn master_node() -> SparkNode {
    let mut selector_1 = bare_selector(MASTER_SELECTOR_1_NODE_NAME);
    selector_1.config = Some(vec![option(
        "spark.master.port",
        &MASTER_SELECTOR_1_CONFIG_PORT.to_string(),
    )]);

    let mut selector_2 = bare_selector(MASTER_SELECTOR_2_NODE_NAME);
    selector_2.env = Some(vec![option(
        "SPARK_MASTER_PORT",
        &MASTER_SELECTOR_2_ENV_PORT.to_string(),
    )]);

    let mut selector_3 = bare_selector(MASTER_SELECTOR_3_NODE_NAME);
    selector_3.master_port = Some(MASTER_SELECTOR_3_PORT);

    let selector_4 = bare_selector(MASTER_SELECTOR_4_NODE_NAME);

    SparkNode { selectors: vec![selector_1, selector_2, selector_3, selector_4] }
}

fn worker_node() -> SparkNode {
    let mut selector = bare_selector("worker-node-1");
    selector.cores = Some(WORKER_SELECTOR_1_CORES);
    selector.memory = Some(WORKER_SELECTOR_1_ENV_MEMORY.to_string());
    SparkNode { selectors: vec![selector] }
}

fn cluster_spec() -> SparkClusterSpec {
    SparkClusterSpec {
        master: master_node(),
        worker: worker_node(),
        history_server: None,
        version: SparkVersion::V3_0_1,
        secret: Some(CLUSTER_SECRET.to_string()),
        log_dir: Some(CLUSTER_LOG_DIR.to_string()),
        max_port_retries: Some(CLUSTER_MAX_PORT_RETRIES),
    }
}

#[test]
fn test_adapt_worker_command() {
    let master = cluster_spec().master;
    let command = adapt_worker_command(&SparkNodeType::Worker, &master);
    let created_cmd = format!(
        "spark://{}:{},{}:{},{}:{},{}:{}",
        MASTER_SELECTOR_1_NODE_NAME,
        MASTER_SELECTOR_1_CONFIG_PORT,
        MASTER_SELECTOR_2_NODE_NAME,
        MASTER_SELECTOR_2_ENV_PORT,
        MASTER_SELECTOR_3_NODE_NAME,
        MASTER_SELECTOR_3_PORT,
        MASTER_SELECTOR_4_NODE_NAME,
        MASTER_DEFAULT_PORT
    );
    assert_eq!(command, Some(created_cmd));
}

#[test]
fn test_get_master_urls() {
    let master = cluster_spec().master;
    let master_urls = get_master_urls(&master);
    assert!(!master_urls.is_empty());
    assert!(master_urls.contains(&create_master_url(
        MASTER_SELECTOR_1_NODE_NAME,
        &MASTER_SELECTOR_1_CONFIG_PORT.to_string()
    )));
    assert!(master_urls.contains(&create_master_url(
        MASTER_SELECTOR_2_NODE_NAME,
        &MASTER_SELECTOR_2_ENV_PORT.to_string()
    )));
    assert!(master_urls.contains(&create_master_url(
        MASTER_SELECTOR_3_NODE_NAME,
        &MASTER_SELECTOR_3_PORT.to_string()
    )));
    assert!(master_urls.contains(&create_master_url(
        MASTER_SELECTOR_4_NODE_NAME,
        &MASTER_DEFAULT_PORT.to_string()
    )));
}

#[test]
fn test_create_master_url() {
    assert_eq!(
        create_master_url(
            MASTER_SELECTOR_1_NODE_NAME,
            &MASTER_SELECTOR_1_CONFIG_PORT.to_string()
        ),
        format!(
            "{}:{}",
            MASTER_SELECTOR_1_NODE_NAME,
            &MASTER_SELECTOR_1_CONFIG_PORT.to_string()
        )
    );
}

#[test]
fn test_required_startup_env() {
    let env_vars = create_required_startup_env();
    assert!(env_vars.contains(&ConfigOption {
        name: "SPARK_NO_DAEMONIZE".to_string(),
        value: "true".to_string(),
    }));
    assert!(env_vars.contains(&ConfigOption {
        name: "SPARK_CONF_DIR".to_string(),
        value: "{{configroot}}/conf".to_string(),
    }));
}

#[test]
fn test_get_config_properties() {
    let spec = cluster_spec();
    let selector = &spec.master.selectors[0];
    let config_properties = get_config_properties(&spec, selector);

    // log_dir
    assert!(config_properties.contains_key("spark.eventLog.enabled"));
    assert_eq!(
        config_properties.get("spark.eventLog.enabled"),
        Some(&"true".to_string())
    );
    assert!(config_properties.contains_key("spark.eventLog.dir"));
    assert_eq!(
        config_properties.get("spark.eventLog.dir"),
        Some(&CLUSTER_LOG_DIR.to_string())
    );

    // secret
    assert!(config_properties.contains_key("spark.authenticate"));
    assert_eq!(
        config_properties.get("spark.authenticate"),
        Some(&"true".to_string())
    );
    assert!(config_properties.contains_key("spark.authenticate.secret"));
    assert_eq!(
        config_properties.get("spark.authenticate.secret"),
        Some(&CLUSTER_SECRET.to_string())
    );

    // port_max_retry
    assert!(config_properties.contains_key("spark.port.maxRetries"));
    assert_eq!(
        config_properties.get("spark.port.maxRetries"),
        Some(&CLUSTER_MAX_PORT_RETRIES.to_string())
    );

    // config options
    assert!(config_properties.contains_key("spark.master.port"));
    assert_eq!(
        config_properties.get("spark.master.port"),
        Some(&MASTER_SELECTOR_1_CONFIG_PORT.to_string())
    );
}

#[test]
fn test_get_env_variables() {
    let spec = cluster_spec();
    let selector = &spec.worker.selectors[0];
    let env_variables = get_env_variables(selector);

    // memory
    assert!(env_variables.contains_key("SPARK_WORKER_MEMORY"));
    assert_eq!(
        env_variables.get("SPARK_WORKER_MEMORY"),
        Some(&WORKER_SELECTOR_1_ENV_MEMORY.to_string())
    );

    // cores
    assert!(env_variables.contains_key("SPARK_WORKER_CORES"));
    assert_eq!(
        env_variables.get("SPARK_WORKER_CORES"),
        Some(&WORKER_SELECTOR_1_CORES.to_string())
    );
}

#[test]
fn test_create_config_map_name() {
    let cluster_name = "demo";
    let hash = "12345";
    assert_eq!(
        create_config_map_name(cluster_name, &SparkNodeType::Master, hash),
        format!("{}-{}-{}-cm", cluster_name, "master", hash)
    );
}

#[test]
fn test_create_config_maps() {
    let hash = "12345";
    let properties_verdicts = vec![
        (
            "spark.authenticate".to_string(),
            Classification::Valid("true".to_string()),
        ),
        (
            "spark.eventLog.enabled".to_string(),
            Classification::Recommended("true".to_string()),
        ),
    ];
    let env_verdicts = vec![(
        "SPARK_MASTER_PORT".to_string(),
        Classification::Valid("10000".to_string()),
    )];

    let config_maps = create_config_maps(
        "demo",
        &SparkNodeType::Master,
        hash,
        &properties_verdicts,
        &env_verdicts,
    );

    assert!(!config_maps.is_empty());

    let cm = &config_maps[0];
    assert!(cm.data.contains_key("spark-defaults.conf"));
    assert!(cm.data.contains_key("spark-env.sh"));

    assert!(cm.data.get("spark-defaults.conf").unwrap().contains("spark.authenticate"));
    assert!(cm.data.get("spark-env.sh").unwrap().contains("SPARK_MASTER_PORT"));
}
