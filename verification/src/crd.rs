//! Data model of the cluster resource: roles, replica-group selectors and
//! free-form configuration options, together with the small total functions
//! defined directly on them.

use vstd::prelude::*;
use vstd::string::StringExecFns;

verus! {

/// Error raised when input taken from the cluster resource has the wrong shape.
#[derive(Debug, PartialEq, Eq)]
pub enum CrdError {
    InvalidNodeType { node_type: String },
}

impl CrdError {
    /// Renders this error for reporting.
    pub fn message(&self) -> (r: String)
        ensures
            self matches CrdError::InvalidNodeType { node_type } ==> r@ == "invalid node type: "@
                + node_type@,
    {
        match self {
            CrdError::InvalidNodeType { node_type } => {
                let mut r = "invalid node type: ".to_owned();
                r.append(node_type.as_str());
                r
            },
        }
    }
}

/// The role a group of replicas performs within the cluster.
#[derive(Clone, Copy, Debug, Hash, PartialEq, Eq, Structural)]
pub enum SparkNodeType {
    Master,
    Worker,
    HistoryServer,
}

/// The product version the cluster runs.
#[derive(Clone, Copy, Debug, Hash, PartialEq, Eq, Structural)]
pub enum SparkVersion {
    V2_4_7,
    V3_0_1,
}

/// A free-form name/value configuration pair.
#[derive(Debug, PartialEq, Eq)]
pub struct ConfigOption {
    pub name: String,
    pub value: String,
}

/// One homogeneous group of replicas sharing a placement target and overrides.
#[derive(Debug)]
pub struct SparkNodeSelector {
    // common options
    pub node_name: String,
    /// Desired replica count. Deliberately excluded from the selector
    /// identity: scaling a group up or down must not change its identity.
    pub instances: usize,
    pub config: Option<Vec<ConfigOption>>,
    pub env: Option<Vec<ConfigOption>>,
    // master options
    pub master_port: Option<usize>,
    pub master_web_ui_port: Option<usize>,
    // worker options
    pub cores: Option<usize>,
    pub memory: Option<String>,
    pub worker_port: Option<usize>,
    pub worker_web_ui_port: Option<usize>,
    // history-server options
    pub store_path: Option<String>,
    pub history_ui_port: Option<usize>,
}

/// A role definition: an ordered sequence of replica-group selectors.
#[derive(Debug)]
pub struct SparkNode {
    pub selectors: Vec<SparkNodeSelector>,
}

/// The declarative cluster specification, immutable per reconciliation pass.
#[derive(Debug)]
pub struct SparkClusterSpec {
    pub master: SparkNode,
    pub worker: SparkNode,
    pub history_server: Option<SparkNode>,
    pub version: SparkVersion,
    pub secret: Option<String>,
    pub log_dir: Option<String>,
    pub max_port_retries: Option<usize>,
}

/// Version bookkeeping carried on the cluster resource; opaque to this core.
#[derive(Clone, Copy, Debug, PartialEq, Eq, Structural)]
pub struct SparkClusterStatus {
    pub current_version: SparkVersion,
    pub target_version: SparkVersion,
}

/// Mathematical image of a [`ConfigOption`]: its name and value as
/// character sequences.
pub struct ConfigOptionView {
    pub name: Seq<char>,
    pub value: Seq<char>,
}

impl View for ConfigOption {
    type V = ConfigOptionView;

    open spec fn view(&self) -> ConfigOptionView {
        ConfigOptionView { name: self.name@, value: self.value@ }
    }
}

/// The sequence of views of a list of configuration options.
pub open spec fn options_view(v: Seq<ConfigOption>) -> Seq<ConfigOptionView> {
    v.map_values(|o: ConfigOption| o@)
}

/// The view of an optional list of configuration options.
pub open spec fn opt_options_view(v: Option<Vec<ConfigOption>>) -> Option<Seq<ConfigOptionView>> {
    match v {
        Some(l) => Some(options_view(l@)),
        None => None,
    }
}

/// The view of an optional string.
pub open spec fn opt_string_view(v: Option<String>) -> Option<Seq<char>> {
    match v {
        Some(s) => Some(s@),
        None => None,
    }
}

/// Mathematical image of a [`SparkNodeSelector`], one field per selector
/// field.
pub struct SparkNodeSelectorView {
    pub node_name: Seq<char>,
    pub instances: int,
    pub config: Option<Seq<ConfigOptionView>>,
    pub env: Option<Seq<ConfigOptionView>>,
    pub master_port: Option<usize>,
    pub master_web_ui_port: Option<usize>,
    pub cores: Option<usize>,
    pub memory: Option<Seq<char>>,
    pub worker_port: Option<usize>,
    pub worker_web_ui_port: Option<usize>,
    pub store_path: Option<Seq<char>>,
    pub history_ui_port: Option<usize>,
}

impl View for SparkNodeSelector {
    type V = SparkNodeSelectorView;

    open spec fn view(&self) -> SparkNodeSelectorView {
        SparkNodeSelectorView {
            node_name: self.node_name@,
            instances: self.instances as int,
            config: opt_options_view(self.config),
            env: opt_options_view(self.env),
            master_port: self.master_port,
            master_web_ui_port: self.master_web_ui_port,
            cores: self.cores,
            memory: opt_string_view(self.memory),
            worker_port: self.worker_port,
            worker_web_ui_port: self.worker_web_ui_port,
            store_path: opt_string_view(self.store_path),
            history_ui_port: self.history_ui_port,
        }
    }
}

impl View for SparkNode {
    type V = Seq<SparkNodeSelectorView>;

    open spec fn view(&self) -> Seq<SparkNodeSelectorView> {
        self.selectors@.map_values(|s: SparkNodeSelector| s@)
    }
}

/// Mathematical image of a [`SparkClusterSpec`].
pub struct SparkClusterSpecView {
    pub master: Seq<SparkNodeSelectorView>,
    pub worker: Seq<SparkNodeSelectorView>,
    pub history_server: Option<Seq<SparkNodeSelectorView>>,
    pub version: SparkVersion,
    pub secret: Option<Seq<char>>,
    pub log_dir: Option<Seq<char>>,
    pub max_port_retries: Option<usize>,
}

impl View for SparkClusterSpec {
    type V = SparkClusterSpecView;

    open spec fn view(&self) -> SparkClusterSpecView {
        SparkClusterSpecView {
            master: self.master@,
            worker: self.worker@,
            history_server: match self.history_server {
                Some(n) => Some(n@),
                None => None,
            },
            version: self.version,
            secret: opt_string_view(self.secret),
            log_dir: opt_string_view(self.log_dir),
            max_port_retries: self.max_port_retries,
        }
    }
}

impl Clone for ConfigOption {
    fn clone(&self) -> (res: Self)
        ensures
            res@ == self@,
    {
        ConfigOption { name: self.name.clone(), value: self.value.clone() }
    }
}

/// Clones a list of configuration options, preserving its view.
pub fn clone_options(v: &Vec<ConfigOption>) -> (res: Vec<ConfigOption>)
    ensures
        options_view(res@) == options_view(v@),
{
    let mut res: Vec<ConfigOption> = Vec::new();
    let n = v.len();
    let mut i: usize = 0;
    while i < n
        invariant
            i <= n,
            n == v@.len(),
            res@.len() == i as int,
            forall|j: int| 0 <= j < i ==> res@[j]@ == #[trigger] v@[j]@,
        decreases n - i,
    {
        res.push(v[i].clone());
        i = i + 1;
    }
    proof {
        assert(options_view(res@) =~= options_view(v@));
    }
    res
}

impl Clone for SparkNodeSelector {
    fn clone(&self) -> (res: Self)
        ensures
            res@ == self@,
    {
        SparkNodeSelector {
            node_name: self.node_name.clone(),
            instances: self.instances,
            config: match &self.config {
                Some(l) => Some(clone_options(l)),
                None => None,
            },
            env: match &self.env {
                Some(l) => Some(clone_options(l)),
                None => None,
            },
            master_port: self.master_port,
            master_web_ui_port: self.master_web_ui_port,
            cores: self.cores,
            memory: match &self.memory {
                Some(s) => Some(s.clone()),
                None => None,
            },
            worker_port: self.worker_port,
            worker_web_ui_port: self.worker_web_ui_port,
            store_path: match &self.store_path {
                Some(s) => Some(s.clone()),
                None => None,
            },
            history_ui_port: self.history_ui_port,
        }
    }
}

impl SparkNodeType {
    /// The canonical name of this role kind.
    pub open spec fn name_seq(self) -> Seq<char> {
        match self {
            SparkNodeType::Master => "master"@,
            SparkNodeType::Worker => "slave"@,
            SparkNodeType::HistoryServer => "history-server"@,
        }
    }

    /// Renders the canonical name of this role kind.
    pub fn as_str(&self) -> (s: &'static str)
        ensures
            s@ == self.name_seq(),
    {
        match self {
            SparkNodeType::Master => "master",
            SparkNodeType::Worker => "slave",
            SparkNodeType::HistoryServer => "history-server",
        }
    }

    /// The container start command for a node of this role kind.
    pub open spec fn command_seq(self, version: SparkVersion) -> Seq<char> {
        "spark-"@ + version.name_seq() + "-bin-hadoop2.7/sbin/start-"@ + self.name_seq()
            + ".sh"@
    }

    /// Builds the container start command for a node of this role kind.
    pub fn get_command(&self, version: &SparkVersion) -> (cmd: String)
        ensures
            cmd@ == self.command_seq(*version),
    {
        let mut cmd = "spark-".to_owned();
        cmd.append(version.as_str());
        cmd.append("-bin-hadoop2.7/sbin/start-");
        cmd.append(self.as_str());
        cmd.append(".sh");
        cmd
    }

    /// Parses a canonical role-kind name; any other string is rejected with
    /// [`CrdError::InvalidNodeType`] carrying the offending input.
    pub fn from_name(input: &str) -> (r: Result<SparkNodeType, CrdError>)
        ensures
            r is Ok <==> (input@ == SparkNodeType::Master.name_seq() || input@
                == SparkNodeType::Worker.name_seq() || input@
                == SparkNodeType::HistoryServer.name_seq()),
            r matches Ok(t) ==> t.name_seq() == input@,
            r matches Err(CrdError::InvalidNodeType { node_type }) ==> node_type@ == input@,
    {
        if str_eq(input, "master") {
            Ok(SparkNodeType::Master)
        } else if str_eq(input, "slave") {
            Ok(SparkNodeType::Worker)
        } else if str_eq(input, "history-server") {
            Ok(SparkNodeType::HistoryServer)
        } else {
            Err(CrdError::InvalidNodeType { node_type: input.to_owned() })
        }
    }
}

impl core::str::FromStr for SparkNodeType {
    type Err = CrdError;

    fn from_str(input: &str) -> Result<SparkNodeType, CrdError> {
        SparkNodeType::from_name(input)
    }
}

/// Compares two strings by content.
pub fn str_eq(a: &str, b: &str) -> (r: bool)
    ensures
        r == (a@ == b@),
{
    let x = a.to_owned();
    let y = b.to_owned();
    x == y
}

impl SparkVersion {
    /// The rendered form of this product version.
    pub open spec fn name_seq(self) -> Seq<char> {
        match self {
            SparkVersion::V2_4_7 => "2.4.7"@,
            SparkVersion::V3_0_1 => "3.0.1"@,
        }
    }

    /// Renders this product version.
    pub fn as_str(&self) -> (s: &'static str)
        ensures
            s@ == self.name_seq(),
    {
        match self {
            SparkVersion::V2_4_7 => "2.4.7",
            SparkVersion::V3_0_1 => "3.0.1",
        }
    }
}

impl Default for SparkVersion {
    /// The version newly created clusters run when none is given.
    fn default() -> (v: Self)
        ensures
            v == SparkVersion::V3_0_1,
    {
        SparkVersion::V3_0_1
    }
}

impl SparkNode {
    /// The sum of the desired instance counts of a sequence of selectors.
    pub open spec fn instances_sum(s: Seq<SparkNodeSelectorView>) -> int
        decreases s.len(),
    {
        if s.len() == 0 {
            0
        } else {
            Self::instances_sum(s.drop_last()) + s.last().instances
        }
    }

    /// Returns the role's total desired instance count: the sum of the
    /// instance counts of all its selectors.
    pub fn get_instances(&self) -> (total: usize)
        requires
            Self::instances_sum(self@) <= usize::MAX,
        ensures
            total == Self::instances_sum(self@),
    {
        let mut total: usize = 0;
        let n = self.selectors.len();
        let mut i: usize = 0;
        while i < n
            invariant
                i <= n,
                n == self@.len(),
                total == Self::instances_sum(self@.take(i as int)),
                Self::instances_sum(self@) <= usize::MAX,
            decreases n - i,
        {
            proof {
                assert(self@.take(i + 1).drop_last() =~= self@.take(i as int));
                Self::lemma_instances_sum_prefix_bound(self@, i + 1);
            }
            total = total + self.selectors[i].instances;
            assert(self@[i as int].instances == self.selectors@[i as int].instances as int);
            i = i + 1;
        }
        proof {
            assert(self@.take(n as int) =~= self@);
        }
        total
    }

    /// Every prefix sum of instance counts is at most the full sum.
    proof fn lemma_instances_sum_prefix_bound(s: Seq<SparkNodeSelectorView>, k: int)
        requires
            0 <= k <= s.len(),
            forall|j: int| 0 <= j < s.len() ==> (#[trigger] s[j].instances) >= 0,
        ensures
            Self::instances_sum(s.take(k)) <= Self::instances_sum(s),
        decreases s.len(),
    {
        if s.len() == 0 {
        } else if k == s.len() {
            assert(s.take(k) =~= s);
        } else {
            assert(s.drop_last().take(k) =~= s.take(k));
            Self::lemma_instances_sum_prefix_bound(s.drop_last(), k);
        }
    }
}

} // verus!
