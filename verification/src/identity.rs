//! Stable, content-derived identity of a replica-group selector.
//!
//! The identity is the hash of a canonical serialization that enumerates
//! every selector field except the instance count, followed by the role's
//! canonical name and the owning cluster's name. Excluding the instance
//! count is load-bearing: scaling a group up or down must not change its
//! identity, or the controller would tear down and rebuild the group on
//! every scale event. Including the role and cluster names keeps equal
//! selector content under different roles or clusters apart.

use crate::crd::ConfigOption;
use crate::crd::ConfigOptionView;
use crate::crd::SparkClusterSpec;
use crate::crd::SparkNode;
use crate::crd::SparkNodeSelector;
use crate::crd::SparkNodeSelectorView;
use crate::crd::SparkNodeType;
use crate::numeral::dec_of;
use crate::numeral::u64_to_string;
use crate::numeral::usize_to_string;
use std::collections::hash_map::DefaultHasher;
use std::hash::Hasher;
use vstd::prelude::*;
use vstd::std_specs::hash::DefaultHasherAdditionalSpecFns;
use vstd::string::StrSliceExecFns;
use vstd::string::StringExecFns;
use vstd::utf8::encode_utf8;

verus! {

/// Canonical serialization of a string field: its length, a separator, the
/// content, and a terminator, so that distinct field sequences serialize
/// distinctly.
pub open spec fn ser_str(s: Seq<char>) -> Seq<char> {
    dec_of(s.len()) + ":"@ + s + ";"@
}

/// Canonical serialization of an optional numeric field.
pub open spec fn ser_opt_num(v: Option<usize>) -> Seq<char> {
    match v {
        Some(n) => "+"@ + dec_of(n as nat) + ";"@,
        None => "-;"@,
    }
}

/// Canonical serialization of an optional string field.
pub open spec fn ser_opt_str(v: Option<Seq<char>>) -> Seq<char> {
    match v {
        Some(s) => "+"@ + ser_str(s),
        None => "-;"@,
    }
}

/// Canonical serialization of the items of an override list, in list order.
pub open spec fn ser_option_items(l: Seq<ConfigOptionView>) -> Seq<char>
    decreases l.len(),
{
    if l.len() == 0 {
        Seq::<char>::empty()
    } else {
        ser_option_items(l.drop_last()) + ser_str(l.last().name) + ser_str(l.last().value)
    }
}

/// Canonical serialization of an optional override list.
pub open spec fn ser_opt_options(v: Option<Seq<ConfigOptionView>>) -> Seq<char> {
    match v {
        Some(l) => "+"@ + dec_of(l.len()) + ":"@ + ser_option_items(l) + ";"@,
        None => "-;"@,
    }
}

/// The canonical serialization a selector is hashed over: every selector
/// field except the instance count, in a fixed order, then the role's
/// canonical name and the cluster's name.
pub open spec fn canonical_of(
    node_type: SparkNodeType,
    cluster_name: Seq<char>,
    s: SparkNodeSelectorView,
) -> Seq<char> {
    ser_str(s.node_name) + ser_opt_options(s.config) + ser_opt_options(s.env) + ser_opt_num(
        s.master_port,
    ) + ser_opt_num(s.master_web_ui_port) + ser_opt_num(s.cores) + ser_opt_str(s.memory)
        + ser_opt_num(s.worker_port) + ser_opt_num(s.worker_web_ui_port) + ser_opt_str(
        s.store_path,
    ) + ser_opt_num(s.history_ui_port) + ser_str(node_type.name_seq()) + ser_str(cluster_name)
}

/// The identity of a selector under a role and a cluster: the hash of its
/// canonical serialization. A pure function of its inputs.
pub open spec fn identity_of(
    node_type: SparkNodeType,
    cluster_name: Seq<char>,
    s: SparkNodeSelectorView,
) -> u64 {
    DefaultHasher::spec_finish(seq![encode_utf8(canonical_of(node_type, cluster_name, s))])
}

/// The identity rendered as a decimal string, as callers consume it.
pub open spec fn identity_str_of(
    node_type: SparkNodeType,
    cluster_name: Seq<char>,
    s: SparkNodeSelectorView,
) -> Seq<char> {
    dec_of(identity_of(node_type, cluster_name, s) as nat)
}

/// Appends the canonical serialization of a string field.
fn append_ser_str(out: &mut String, s: &str)
    ensures
        final(out)@ == old(out)@ + ser_str(s@),
{
    let l = s.unicode_len();
    out.append(u64_to_string(l as u64).as_str());
    out.append(":");
    out.append(s);
    out.append(";");
}

/// Appends the canonical serialization of an optional numeric field.
fn append_ser_opt_num(out: &mut String, v: &Option<usize>)
    ensures
        final(out)@ == old(out)@ + ser_opt_num(*v),
{
    match v {
        Some(n) => {
            out.append("+");
            out.append(usize_to_string(*n).as_str());
            out.append(";");
        },
        None => {
            out.append("-;");
        },
    }
}

/// Appends the canonical serialization of an optional string field.
fn append_ser_opt_str(out: &mut String, v: &Option<String>)
    ensures
        final(out)@ == old(out)@ + ser_opt_str(crate::crd::opt_string_view(*v)),
{
    match v {
        Some(s) => {
            out.append("+");
            append_ser_str(out, s.as_str());
        },
        None => {
            out.append("-;");
        },
    }
}

/// Appends the canonical serialization of an optional override list.
fn append_ser_opt_options(out: &mut String, v: &Option<Vec<ConfigOption>>)
    ensures
        final(out)@ == old(out)@ + ser_opt_options(crate::crd::opt_options_view(*v)),
{
    match v {
        Some(l) => {
            let ghost items = crate::crd::options_view(l@);
            out.append("+");
            out.append(usize_to_string(l.len()).as_str());
            out.append(":");
            let ghost mid = out@;
            let n = l.len();
            let mut i: usize = 0;
            while i < n
                invariant
                    i <= n,
                    n == l@.len(),
                    items == crate::crd::options_view(l@),
                    out@ == mid + ser_option_items(items.take(i as int)),
                decreases n - i,
            {
                proof {
                    assert(items.take(i + 1).drop_last() =~= items.take(i as int));
                    assert(items.take(i + 1).last() == l@[i as int]@);
                }
                append_ser_str(out, l[i].name.as_str());
                append_ser_str(out, l[i].value.as_str());
                i = i + 1;
            }
            out.append(";");
            proof {
                assert(items.take(n as int) =~= items);
            }
        },
        None => {
            out.append("-;");
        },
    }
}

/// Builds the canonical serialization of a selector under a role and a
/// cluster name.
fn canonical_string(node_type: SparkNodeType, cluster_name: &str, s: &SparkNodeSelector) -> (r:
    String)
    ensures
        r@ == canonical_of(node_type, cluster_name@, s@),
{
    let mut out = String::new();
    append_ser_str(&mut out, s.node_name.as_str());
    append_ser_opt_options(&mut out, &s.config);
    append_ser_opt_options(&mut out, &s.env);
    append_ser_opt_num(&mut out, &s.master_port);
    append_ser_opt_num(&mut out, &s.master_web_ui_port);
    append_ser_opt_num(&mut out, &s.cores);
    append_ser_opt_str(&mut out, &s.memory);
    append_ser_opt_num(&mut out, &s.worker_port);
    append_ser_opt_num(&mut out, &s.worker_web_ui_port);
    append_ser_opt_str(&mut out, &s.store_path);
    append_ser_opt_num(&mut out, &s.history_ui_port);
    append_ser_str(&mut out, node_type.as_str());
    append_ser_str(&mut out, cluster_name);
    proof {
        assert(out@ =~= canonical_of(node_type, cluster_name@, s@));
    }
    out
}

/// Computes the identity of a selector under a role and a cluster name.
pub fn selector_identity(node_type: SparkNodeType, cluster_name: &str, s: &SparkNodeSelector) -> (r:
    u64)
    ensures
        r == identity_of(node_type, cluster_name@, s@),
{
    let c = canonical_string(node_type, cluster_name, s);
    let mut hasher = DefaultHasher::new();
    hasher.write(c.as_str().as_bytes());
    proof {
        assert(hasher@ =~= seq![encode_utf8(canonical_of(node_type, cluster_name@, s@))]);
    }
    hasher.finish()
}

/// Computes the identity of a selector, rendered as a decimal string.
pub fn selector_identity_string(
    node_type: SparkNodeType,
    cluster_name: &str,
    s: &SparkNodeSelector,
) -> (r: String)
    ensures
        r@ == identity_str_of(node_type, cluster_name@, s@),
{
    u64_to_string(selector_identity(node_type, cluster_name, s))
}

/// Holds when `pairs` lists, in selector order, each selector of `sels`
/// keyed by its identity string.
pub open spec fn hashed_pairs_match(
    pairs: Seq<(String, SparkNodeSelector)>,
    sels: Seq<SparkNodeSelectorView>,
    node_type: SparkNodeType,
    cluster_name: Seq<char>,
) -> bool {
    &&& pairs.len() == sels.len()
    &&& forall|i: int|
        0 <= i < pairs.len() ==> (#[trigger] pairs[i]).0@ == identity_str_of(
            node_type,
            cluster_name,
            sels[i],
        ) && pairs[i].1@ == sels[i]
}

impl SparkNode {
    /// Keys every selector of this role by its identity. Two selectors get
    /// the same key only if they agree on every field except the instance
    /// count; such selectors are indistinguishable for provisioning
    /// purposes, and consumers treating the result as a map legitimately
    /// collapse them to one entry.
    pub fn get_hashed_selectors(&self, node_type: SparkNodeType, cluster_name: &str) -> (r: Vec<
        (String, SparkNodeSelector),
    >)
        ensures
            hashed_pairs_match(r@, self@, node_type, cluster_name@),
    {
        let mut r: Vec<(String, SparkNodeSelector)> = Vec::new();
        let n = self.selectors.len();
        let mut i: usize = 0;
        while i < n
            invariant
                i <= n,
                n == self@.len(),
                n == self.selectors@.len(),
                r@.len() == i as int,
                forall|j: int|
                    0 <= j < i ==> (#[trigger] r@[j]).0@ == identity_str_of(
                        node_type,
                        cluster_name@,
                        self@[j],
                    ) && r@[j].1@ == self@[j],
            decreases n - i,
        {
            let sel = &self.selectors[i];
            let key = selector_identity_string(node_type, cluster_name, sel);
            r.push((key, sel.clone()));
            i = i + 1;
        }
        r
    }
}

/// The per-role identity-keyed selector lists of a whole cluster
/// specification.
pub struct HashedSelectors {
    pub master: Vec<(String, SparkNodeSelector)>,
    pub worker: Vec<(String, SparkNodeSelector)>,
    pub history_server: Option<Vec<(String, SparkNodeSelector)>>,
}

impl SparkClusterSpec {
    /// Keys the selectors of every role of this cluster by their identity:
    /// master and worker always, the history server when present.
    pub fn get_hashed_selectors(&self, cluster_name: &str) -> (r: HashedSelectors)
        ensures
            hashed_pairs_match(r.master@, self@.master, SparkNodeType::Master, cluster_name@),
            hashed_pairs_match(r.worker@, self@.worker, SparkNodeType::Worker, cluster_name@),
            (r.history_server is Some) <==> (self@.history_server is Some),
            r.history_server matches Some(h) ==> hashed_pairs_match(
                h@,
                self@.history_server.unwrap(),
                SparkNodeType::HistoryServer,
                cluster_name@,
            ),
    {
        HashedSelectors {
            master: self.master.get_hashed_selectors(SparkNodeType::Master, cluster_name),
            worker: self.worker.get_hashed_selectors(SparkNodeType::Worker, cluster_name),
            history_server: match &self.history_server {
                Some(node) => Some(
                    node.get_hashed_selectors(SparkNodeType::HistoryServer, cluster_name),
                ),
                None => None,
            },
        }
    }
}

/// Identity is stable under scale: two selectors that differ only in their
/// instance count have the same identity under every role and cluster name.
pub proof fn lemma_identity_stable_under_scale(
    node_type: SparkNodeType,
    cluster_name: Seq<char>,
    s1: SparkNodeSelectorView,
    s2: SparkNodeSelectorView,
)
    requires
        s2 == (SparkNodeSelectorView { instances: s2.instances, ..s1 }),
    ensures
        identity_of(node_type, cluster_name, s1) == identity_of(node_type, cluster_name, s2),
        identity_str_of(node_type, cluster_name, s1) == identity_str_of(
            node_type,
            cluster_name,
            s2,
        ),
{
    assert(canonical_of(node_type, cluster_name, s1) == canonical_of(node_type, cluster_name, s2));
}

} // verus!
