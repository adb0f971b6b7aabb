//! The rendering layer: serializing effective configuration maps into the
//! two text artifact bodies and naming the artifact deterministically.
//!
//! Consumers must treat line order in the rendered bodies as insignificant;
//! only the key/value pairs are contractual. The maps rendered here keep
//! insertion order, so equal inputs render byte-identically all the same.

use crate::crd::SparkNodeType;
use crate::dict::ConfigDict;
use crate::dict::SpecPair;
use crate::merge::filtered_pairs;
use crate::merge::process_product_config;
use crate::merge::Classification;
use vstd::prelude::*;
use vstd::string::StringExecFns;

verus! {

/// The rendering of ordered key/value pairs, one `key<assignment>value`
/// line each.
pub open spec fn render_pairs(s: Seq<SpecPair>, assignment: Seq<char>) -> Seq<char>
    decreases s.len(),
{
    if s.len() == 0 {
        Seq::<char>::empty()
    } else {
        render_pairs(s.drop_last(), assignment) + s.last().0 + assignment + s.last().1 + "\n"@
    }
}

/// Unrolls a map into a string, one line per entry in insertion order, with
/// the given assignment token between each key and its value.
pub fn convert_map_to_string(map: &ConfigDict, assignment: &str) -> (r: String)
    ensures
        r@ == render_pairs(map.pairs(), assignment@),
{
    let mut r = String::new();
    let n = map.len();
    let mut i: usize = 0;
    proof {
        assert(r@ =~= render_pairs(map.pairs().take(0), assignment@));
    }
    while i < n
        invariant
            i <= n,
            n == map.pairs().len(),
            r@ == render_pairs(map.pairs().take(i as int), assignment@),
        decreases n - i,
    {
        let o = map.entry_at(i);
        r.append(o.name.as_str());
        r.append(assignment);
        r.append(o.value.as_str());
        r.append("\n");
        proof {
            assert(map.pairs().take(i + 1).drop_last() =~= map.pairs().take(i as int));
            assert(map.pairs().take(i + 1).last() == map.pairs()[i as int]);
        }
        i = i + 1;
    }
    proof {
        assert(map.pairs().take(n as int) =~= map.pairs());
    }
    r
}

/// The deterministic artifact name for one replica group:
/// `<cluster>-<role>-<identity>-cm`.
pub open spec fn config_map_name_seq(
    cluster_name: Seq<char>,
    node_type: SparkNodeType,
    hash: Seq<char>,
) -> Seq<char> {
    cluster_name + "-"@ + node_type.name_seq() + "-"@ + hash + "-cm"@
}

/// Names the artifact holding one replica group's configuration: the
/// cluster name, the role kind's canonical name and the group's identity,
/// joined with dashes and suffixed. All pods of one replica group share the
/// artifact this names.
pub fn create_config_map_name(cluster_name: &str, node_type: &SparkNodeType, hash: &str) -> (r:
    String)
    ensures
        r@ == config_map_name_seq(cluster_name@, *node_type, hash@),
{
    let mut r = cluster_name.to_owned();
    r.append("-");
    r.append(node_type.as_str());
    r.append("-");
    r.append(hash);
    r.append("-cm");
    r
}

/// One configuration artifact for the external cluster API to persist: its
/// deterministic name and its data, exactly two entries — the rendered
/// properties body and the rendered environment body.
#[derive(Debug)]
pub struct ConfigMapArtifact {
    pub name: String,
    pub data: ConfigDict,
}

/// The data entries of the artifact for one replica group: the properties
/// body under the properties file name, the environment body under the
/// environment file name.
pub open spec fn config_map_data_pairs(
    properties_verdicts: Seq<(String, Classification)>,
    env_verdicts: Seq<(String, Classification)>,
) -> Seq<SpecPair> {
    seq![
        ("spark-defaults.conf"@, render_pairs(filtered_pairs(properties_verdicts), " "@)),
        ("spark-env.sh"@, render_pairs(filtered_pairs(env_verdicts), "="@)),
    ]
}

/// Builds the configuration artifacts for one replica group from the
/// validator's verdicts on its two candidate maps: one artifact, named
/// deterministically, holding the filtered properties map rendered as
/// `key value` lines and the filtered environment map rendered as
/// `key=value` lines.
pub fn create_config_maps(
    cluster_name: &str,
    node_type: &SparkNodeType,
    hash: &str,
    properties_verdicts: &Vec<(String, Classification)>,
    env_verdicts: &Vec<(String, Classification)>,
) -> (r: Vec<ConfigMapArtifact>)
    ensures
        r@.len() == 1,
        r@[0].name@ == config_map_name_seq(cluster_name@, *node_type, hash@),
        r@[0].data.wf(),
        r@[0].data.pairs() == config_map_data_pairs(properties_verdicts@, env_verdicts@),
{
    let conf_map = process_product_config(properties_verdicts);
    let env_map = process_product_config(env_verdicts);
    let conf = convert_map_to_string(&conf_map, " ");
    let env = convert_map_to_string(&env_map, "=");

    let mut data = ConfigDict::new();
    data.insert("spark-defaults.conf".to_owned(), conf);
    proof {
        reveal_strlit("spark-defaults.conf");
        reveal_strlit("spark-env.sh");
        assert(!crate::dict::has_key(Seq::<SpecPair>::empty(), "spark-defaults.conf"@));
        assert(data.pairs() =~= seq![
            ("spark-defaults.conf"@, render_pairs(filtered_pairs(properties_verdicts@), " "@)),
        ]);
    }
    data.insert("spark-env.sh".to_owned(), env);
    proof {
        reveal_strlit("spark-defaults.conf");
        reveal_strlit("spark-env.sh");
        assert("spark-defaults.conf"@.len() != "spark-env.sh"@.len());
        let ghost one = seq![
            ("spark-defaults.conf"@, render_pairs(filtered_pairs(properties_verdicts@), " "@)),
        ];
        assert(!crate::dict::has_key(one, "spark-env.sh"@)) by {
            assert(forall|i: int|
                0 <= i < one.len() ==> (#[trigger] one[i]).0 == "spark-defaults.conf"@);
        }
        assert(data.pairs() =~= config_map_data_pairs(properties_verdicts@, env_verdicts@));
    }

    let name = create_config_map_name(cluster_name, node_type, hash);
    let mut r: Vec<ConfigMapArtifact> = Vec::new();
    r.push(ConfigMapArtifact { name, data });
    r
}

} // verus!
