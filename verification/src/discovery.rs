//! Master discovery: resolving each master selector's port, building the
//! `<node>:<port>` addresses, and deriving the connection string dependent
//! roles need at startup.

use crate::crd::str_eq;
use crate::crd::ConfigOption;
use crate::crd::ConfigOptionView;
use crate::crd::SparkNode;
use crate::crd::SparkNodeSelectorView;
use crate::crd::SparkNodeType;
use crate::numeral::dec_of;
use crate::numeral::usize_to_string;
use vstd::prelude::*;
use vstd::string::StringExecFns;

verus! {

/// The value of the first option carrying the given name, if any.
pub open spec fn first_option_value(l: Seq<ConfigOptionView>, name: Seq<char>) -> Option<
    Seq<char>,
>
    decreases l.len(),
{
    if l.len() == 0 {
        None
    } else if l.first().name == name {
        Some(l.first().value)
    } else {
        first_option_value(l.drop_first(), name)
    }
}

/// Searches an override list for a named option, first match wins.
pub fn get_master_port(option_name: &str, options: &[ConfigOption]) -> (r: Option<String>)
    ensures
        match r {
            Some(v) => first_option_value(crate::crd::options_view(options@), option_name@)
                == Some(v@),
            None => first_option_value(crate::crd::options_view(options@), option_name@) is None,
        },
{
    let ghost l = crate::crd::options_view(options@);
    proof {
        assert(l.skip(0) =~= l);
    }
    let n = options.len();
    let mut i: usize = 0;
    while i < n
        invariant
            i <= n,
            n == options@.len(),
            l == crate::crd::options_view(options@),
            first_option_value(l, option_name@) == first_option_value(
                l.skip(i as int),
                option_name@,
            ),
        decreases n - i,
    {
        proof {
            assert(l.skip(i as int).first() == l[i as int]);
            assert(l.skip(i as int).drop_first() =~= l.skip(i + 1));
        }
        if str_eq(options[i].name.as_str(), option_name) {
            return Some(options[i].value.clone());
        }
        i = i + 1;
    }
    proof {
        assert(l.skip(n as int) =~= Seq::<ConfigOptionView>::empty());
    }
    None
}

/// The port a master selector resolves to, rendered as a string, by
/// precedence: the master-port key in its properties overrides, else the
/// master-port variable in its environment overrides, else its typed port
/// field, else the conventional default port.
pub open spec fn resolved_port(s: SparkNodeSelectorView) -> Seq<char> {
    if (s.config is Some) && (first_option_value(s.config.unwrap(), "spark.master.port"@)
        is Some) {
        first_option_value(s.config.unwrap(), "spark.master.port"@).unwrap()
    } else if (s.env is Some) && (first_option_value(s.env.unwrap(), "SPARK_MASTER_PORT"@)
        is Some) {
        first_option_value(s.env.unwrap(), "SPARK_MASTER_PORT"@).unwrap()
    } else if s.master_port is Some {
        dec_of(s.master_port.unwrap() as nat)
    } else {
        "7077"@
    }
}

/// The discovery address of a master selector.
pub open spec fn master_url_of(s: SparkNodeSelectorView) -> Seq<char> {
    s.node_name + ":"@ + resolved_port(s)
}

/// Builds one discovery address from a node name and a port.
pub fn create_master_url(node_name: &str, port: &str) -> (r: String)
    ensures
        r@ == node_name@ + ":"@ + port@,
{
    let mut r = node_name.to_owned();
    r.append(":");
    r.append(port);
    r
}

/// Collects one discovery address per master selector, in selector order,
/// resolving each selector's port by the documented precedence.
pub fn get_master_urls(master: &SparkNode) -> (r: Vec<String>)
    ensures
        r@.len() == master@.len(),
        forall|i: int| 0 <= i < r@.len() ==> (#[trigger] r@[i])@ == master_url_of(master@[i]),
{
    let mut r: Vec<String> = Vec::new();
    let n = master.selectors.len();
    let mut i: usize = 0;
    while i < n
        invariant
            i <= n,
            n == master@.len(),
            n == master.selectors@.len(),
            r@.len() == i as int,
            forall|j: int| 0 <= j < i ==> (#[trigger] r@[j])@ == master_url_of(master@[j]),
        decreases n - i,
    {
        let sel = &master.selectors[i];
        let port: String = {
            let from_config: Option<String> = match &sel.config {
                Some(conf) => get_master_port("spark.master.port", conf.as_slice()),
                None => None,
            };
            match from_config {
                Some(p) => p,
                None => {
                    let from_env: Option<String> = match &sel.env {
                        Some(env) => get_master_port("SPARK_MASTER_PORT", env.as_slice()),
                        None => None,
                    };
                    match from_env {
                        Some(p) => p,
                        None => match sel.master_port {
                            Some(p) => usize_to_string(p),
                            None => "7077".to_owned(),
                        },
                    }
                },
            }
        };
        assert(port@ == resolved_port(master@[i as int]));
        r.push(create_master_url(sel.node_name.as_str(), port.as_str()));
        i = i + 1;
    }
    r
}

/// The comma-separated join of a sequence of strings.
pub open spec fn join_comma(s: Seq<Seq<char>>) -> Seq<char>
    decreases s.len(),
{
    if s.len() == 0 {
        Seq::<char>::empty()
    } else if s.len() == 1 {
        s[0]
    } else {
        join_comma(s.drop_last()) + ","@ + s.last()
    }
}

/// The connection string a dependent role's startup command needs: every
/// master discovery address, joined with commas, behind the scheme token.
pub open spec fn worker_command_seq(master: Seq<SparkNodeSelectorView>) -> Seq<char> {
    "spark://"@ + join_comma(master.map_values(|s: SparkNodeSelectorView| master_url_of(s)))
}

/// Extends the worker start command with all master addresses: defined only
/// for the worker role, every other role kind gets `None`. A master role
/// with no selectors yields the bare scheme token; that is an edge case,
/// not an error.
pub fn adapt_worker_command(node_type: &SparkNodeType, master: &SparkNode) -> (r: Option<String>)
    ensures
        (*node_type != SparkNodeType::Worker) ==> (r is None),
        (*node_type == SparkNodeType::Worker) ==> (r matches Some(c) && c@ == worker_command_seq(
            master@,
        )),
{
    if *node_type != SparkNodeType::Worker {
        return None;
    }
    let ghost urls_spec = master@.map_values(|s: SparkNodeSelectorView| master_url_of(s));
    let urls = get_master_urls(master);
    let mut cmd = "spark://".to_owned();
    proof {
        assert(cmd@ =~= "spark://"@ + join_comma(urls_spec.take(0)));
    }
    let n = urls.len();
    let mut i: usize = 0;
    while i < n
        invariant
            i <= n,
            n == urls@.len(),
            n == urls_spec.len(),
            forall|j: int| 0 <= j < n ==> (#[trigger] urls@[j])@ == urls_spec[j],
            cmd@ == "spark://"@ + join_comma(urls_spec.take(i as int)),
        decreases n - i,
    {
        if i > 0 {
            cmd.append(",");
        }
        cmd.append(urls[i].as_str());
        proof {
            assert(urls_spec.take(i + 1).drop_last() =~= urls_spec.take(i as int));
            assert(urls_spec.take(i + 1).last() == urls_spec[i as int]);
            if i == 0 {
                assert(join_comma(urls_spec.take(1)) == urls_spec[0]);
                assert(cmd@ =~= "spark://"@ + join_comma(urls_spec.take(1)));
            } else {
                assert(cmd@ =~= "spark://"@ + join_comma(urls_spec.take(i + 1)));
            }
        }
        i = i + 1;
    }
    proof {
        assert(urls_spec.take(n as int) =~= urls_spec);
    }
    Some(cmd)
}

} // verus!
