//! The layered configuration-merge engine.
//!
//! Candidate key/value maps are assembled from three precedence-ordered
//! tiers — cluster-wide derived defaults, role-specific derived values, and
//! the user's free-form overrides — with later tiers winning on key
//! collision. The assembled candidate is then filtered through the external
//! validator's per-key verdicts: only `Recommended` and `Valid` values reach
//! the final map, `Default`, `Warn` and `Error` keys are dropped, and the
//! merge as a whole never fails.

use crate::crd::options_view;
use crate::crd::ConfigOption;
use crate::crd::ConfigOptionView;
use crate::crd::SparkClusterSpec;
use crate::crd::SparkClusterSpecView;
use crate::crd::SparkNodeSelector;
use crate::crd::SparkNodeSelectorView;
use crate::dict::dict_insert;
use crate::dict::has_key;
use crate::dict::lemma_dict_insert;
use crate::dict::lemma_map_value;
use crate::dict::pairs_to_map;
use crate::dict::unique_keys;
use crate::dict::ConfigDict;
use crate::dict::SpecPair;
use crate::numeral::dec_of;
use crate::numeral::usize_to_string;
use vstd::prelude::*;

verus! {

/// The per-key verdict of the external configuration validator.
#[derive(Debug)]
pub enum Classification {
    /// The validator supplies the workload's own built-in default; the
    /// engine must not propagate it.
    Default(String),
    /// The validator recommends this value; it is written to the final map.
    Recommended(String),
    /// The validator accepts this value; it is written to the final map.
    Valid(String),
    /// The value is accepted with a warning; it is reported and dropped.
    Warn(String, String),
    /// The value is invalid; it is reported and dropped, and processing of
    /// the other keys continues.
    Error(String),
}

/// The user's override list as key/value pairs, in list order; an absent
/// list contributes nothing.
pub open spec fn option_pairs(l: Option<Seq<ConfigOptionView>>) -> Seq<SpecPair> {
    match l {
        Some(s) => s.map_values(|o: ConfigOptionView| (o.name, o.value)),
        None => Seq::<SpecPair>::empty(),
    }
}

/// Folds last-writer-wins insertion of `ps`, in order, over `s`.
pub open spec fn insert_all(s: Seq<SpecPair>, ps: Seq<SpecPair>) -> Seq<SpecPair>
    decreases ps.len(),
{
    if ps.len() == 0 {
        s
    } else {
        dict_insert(insert_all(s, ps.drop_last()), ps.last().0, ps.last().1)
    }
}

/// Inserting all pairs into an empty map denotes the map of the pairs
/// themselves, and keeps keys unique.
pub proof fn lemma_insert_all(ps: Seq<SpecPair>)
    ensures
        unique_keys(insert_all(Seq::<SpecPair>::empty(), ps)),
        pairs_to_map(insert_all(Seq::<SpecPair>::empty(), ps)) == pairs_to_map(ps),
    decreases ps.len(),
{
    let e = Seq::<SpecPair>::empty();
    if ps.len() == 0 {
        assert(unique_keys(e));
    } else {
        lemma_insert_all(ps.drop_last());
        lemma_dict_insert(insert_all(e, ps.drop_last()), ps.last().0, ps.last().1);
    }
}

/// One last-writer-wins step on the tail of the pair list.
pub proof fn lemma_insert_all_push(s: Seq<SpecPair>, ps: Seq<SpecPair>, k: Seq<char>, v: Seq<char>)
    ensures
        insert_all(s, ps.push((k, v))) == dict_insert(insert_all(s, ps), k, v),
{
    assert(ps.push((k, v)).drop_last() =~= ps);
}

/// The map denoted by concatenated pair lists: the right-hand list wins on
/// key collision.
pub proof fn lemma_map_concat(a: Seq<SpecPair>, b: Seq<SpecPair>)
    ensures
        pairs_to_map(a + b) == pairs_to_map(a).union_prefer_right(pairs_to_map(b)),
    decreases b.len(),
{
    if b.len() == 0 {
        assert(a + b =~= a);
        assert(pairs_to_map(a).union_prefer_right(pairs_to_map(b)) =~= pairs_to_map(a));
    } else {
        lemma_map_concat(a, b.drop_last());
        assert((a + b).drop_last() =~= a + b.drop_last());
        assert((a + b).last() == b.last());
        assert(pairs_to_map(a).union_prefer_right(pairs_to_map(b.drop_last())).insert(
            b.last().0,
            b.last().1,
        ) =~= pairs_to_map(a).union_prefer_right(
            pairs_to_map(b.drop_last()).insert(b.last().0, b.last().1),
        ));
    }
}

/// Tier 1 and tier 2 of the properties candidate: cluster-wide derived
/// defaults (logging, authentication, port retries), then role-specific
/// derived values (history-server store path and UI port), in insertion
/// order.
pub open spec fn properties_base_pairs(
    cs: SparkClusterSpecView,
    sv: SparkNodeSelectorView,
) -> Seq<SpecPair> {
    let log_dir = if (cs.log_dir is Some) {
        cs.log_dir.unwrap()
    } else {
        "/tmp"@
    };
    seq![
        ("spark.eventLog.enabled"@, "true"@),
        ("spark.eventLog.dir"@, log_dir),
        ("spark.history.fs.logDirectory"@, log_dir),
    ] + (if (cs.secret is Some) {
        seq![("spark.authenticate"@, "true"@), ("spark.authenticate.secret"@, cs.secret.unwrap())]
    } else {
        Seq::<SpecPair>::empty()
    }) + seq![
        (
            "spark.port.maxRetries"@,
            dec_of(
                (if (cs.max_port_retries is Some) {
                    cs.max_port_retries.unwrap()
                } else {
                    0
                }) as nat,
            ),
        ),
    ] + (if (sv.store_path is Some) {
        seq![("spark.history.store.path"@, sv.store_path.unwrap())]
    } else {
        Seq::<SpecPair>::empty()
    }) + (if (sv.history_ui_port is Some) {
        seq![("spark.history.ui.port"@, dec_of(sv.history_ui_port.unwrap() as nat))]
    } else {
        Seq::<SpecPair>::empty()
    })
}

/// The full properties candidate: derived tiers, then the user's properties
/// overrides, folded left to right with last writer wins.
pub open spec fn properties_pairs(
    cs: SparkClusterSpecView,
    sv: SparkNodeSelectorView,
) -> Seq<SpecPair> {
    insert_all(Seq::<SpecPair>::empty(), properties_base_pairs(cs, sv) + option_pairs(sv.config))
}

/// Tier 2 of the environment candidate: role-specific derived values taken
/// from the selector's typed fields, in insertion order.
pub open spec fn env_base_pairs(sv: SparkNodeSelectorView) -> Seq<SpecPair> {
    (if (sv.master_port is Some) {
        seq![("SPARK_MASTER_PORT"@, dec_of(sv.master_port.unwrap() as nat))]
    } else {
        Seq::<SpecPair>::empty()
    }) + (if (sv.master_web_ui_port is Some) {
        seq![("SPARK_MASTER_WEBUI_PORT"@, dec_of(sv.master_web_ui_port.unwrap() as nat))]
    } else {
        Seq::<SpecPair>::empty()
    }) + (if (sv.cores is Some) {
        seq![("SPARK_WORKER_CORES"@, dec_of(sv.cores.unwrap() as nat))]
    } else {
        Seq::<SpecPair>::empty()
    }) + (if (sv.memory is Some) {
        seq![("SPARK_WORKER_MEMORY"@, sv.memory.unwrap())]
    } else {
        Seq::<SpecPair>::empty()
    }) + (if (sv.worker_port is Some) {
        seq![("SPARK_WORKER_PORT"@, dec_of(sv.worker_port.unwrap() as nat))]
    } else {
        Seq::<SpecPair>::empty()
    }) + (if (sv.worker_web_ui_port is Some) {
        seq![("SPARK_WORKER_WEBUI_PORT"@, dec_of(sv.worker_web_ui_port.unwrap() as nat))]
    } else {
        Seq::<SpecPair>::empty()
    })
}

/// The full environment candidate: derived values, then the user's
/// environment overrides, folded left to right with last writer wins.
pub open spec fn env_pairs(sv: SparkNodeSelectorView) -> Seq<SpecPair> {
    insert_all(Seq::<SpecPair>::empty(), env_base_pairs(sv) + option_pairs(sv.env))
}

/// Appends the user's override list to a candidate map, in list order, so
/// duplicate names within the list also follow last writer wins.
fn insert_options(d: &mut ConfigDict, l: &Vec<ConfigOption>)
    requires
        old(d).wf(),
    ensures
        final(d).wf(),
        final(d).pairs() == insert_all(old(d).pairs(), option_pairs(Some(options_view(l@)))),
{
    let ghost user = option_pairs(Some(options_view(l@)));
    let n = l.len();
    let mut i: usize = 0;
    while i < n
        invariant
            i <= n,
            n == l@.len(),
            user == option_pairs(Some(options_view(l@))),
            user.len() == n,
            forall|j: int| 0 <= j < n ==> #[trigger] user[j] == (l@[j].name@, l@[j].value@),
            d.wf(),
            d.pairs() == insert_all(old(d).pairs(), user.take(i as int)),
        decreases n - i,
    {
        d.insert(l[i].name.clone(), l[i].value.clone());
        proof {
            assert(user.take(i + 1) =~= user.take(i as int).push((l@[i as int].name@, l@[
                i as int].value@)));
            lemma_insert_all_push(
                old(d).pairs(),
                user.take(i as int),
                l@[i as int].name@,
                l@[i as int].value@,
            );
        }
        i = i + 1;
    }
    proof {
        assert(user.take(n as int) =~= user);
    }
}

/// Assembles the properties candidate for one selector: cluster-wide
/// defaults, then role-specific derived values, then the user's properties
/// overrides, later sources winning on key collision.
pub fn get_config_properties(spec: &SparkClusterSpec, selector: &SparkNodeSelector) -> (r:
    ConfigDict)
    ensures
        r.wf(),
        r.pairs() == properties_pairs(spec@, selector@),
        r.as_map() == pairs_to_map(
            properties_base_pairs(spec@, selector@) + option_pairs(selector@.config),
        ),
{
    let ghost base = properties_base_pairs(spec@, selector@);
    let mut d = ConfigDict::new();
    let ghost e = Seq::<SpecPair>::empty();
    let ghost mut ps = Seq::<SpecPair>::empty();

    // tier 1: logging
    let log_dir: String = match &spec.log_dir {
        Some(s) => s.clone(),
        None => "/tmp".to_owned(),
    };
    d.insert("spark.eventLog.enabled".to_owned(), "true".to_owned());
    proof {
        lemma_insert_all_push(e, ps, "spark.eventLog.enabled"@, "true"@);
        ps = ps.push(("spark.eventLog.enabled"@, "true"@));
    }
    d.insert("spark.eventLog.dir".to_owned(), log_dir.clone());
    proof {
        lemma_insert_all_push(e, ps, "spark.eventLog.dir"@, log_dir@);
        ps = ps.push(("spark.eventLog.dir"@, log_dir@));
    }
    d.insert("spark.history.fs.logDirectory".to_owned(), log_dir.clone());
    proof {
        lemma_insert_all_push(e, ps, "spark.history.fs.logDirectory"@, log_dir@);
        ps = ps.push(("spark.history.fs.logDirectory"@, log_dir@));
    }

    // tier 1: authentication
    match &spec.secret {
        Some(secret) => {
            d.insert("spark.authenticate".to_owned(), "true".to_owned());
            proof {
                lemma_insert_all_push(e, ps, "spark.authenticate"@, "true"@);
                ps = ps.push(("spark.authenticate"@, "true"@));
            }
            d.insert("spark.authenticate.secret".to_owned(), secret.clone());
            proof {
                lemma_insert_all_push(e, ps, "spark.authenticate.secret"@, secret@);
                ps = ps.push(("spark.authenticate.secret"@, secret@));
            }
        },
        None => {},
    }

    // tier 1: maximum port retries, defaulting to zero
    let retries: usize = match spec.max_port_retries {
        Some(n) => n,
        None => 0,
    };
    d.insert("spark.port.maxRetries".to_owned(), usize_to_string(retries));
    proof {
        lemma_insert_all_push(e, ps, "spark.port.maxRetries"@, dec_of(retries as nat));
        ps = ps.push(("spark.port.maxRetries"@, dec_of(retries as nat)));
    }

    // tier 2: history server
    match &selector.store_path {
        Some(store_path) => {
            d.insert("spark.history.store.path".to_owned(), store_path.clone());
            proof {
                lemma_insert_all_push(e, ps, "spark.history.store.path"@, store_path@);
                ps = ps.push(("spark.history.store.path"@, store_path@));
            }
        },
        None => {},
    }
    match selector.history_ui_port {
        Some(port) => {
            d.insert("spark.history.ui.port".to_owned(), usize_to_string(port));
            proof {
                lemma_insert_all_push(e, ps, "spark.history.ui.port"@, dec_of(port as nat));
                ps = ps.push(("spark.history.ui.port"@, dec_of(port as nat)));
            }
        },
        None => {},
    }
    proof {
        assert(ps =~= base);
        assert(d.pairs() == insert_all(e, base));
    }

    // tier 3: the user's free-form properties overrides win over everything
    match &selector.config {
        Some(l) => {
            insert_options(&mut d, l);
            proof {
                lemma_insert_all_concat(e, base, option_pairs(selector@.config));
            }
        },
        None => {
            proof {
                assert(base + option_pairs(selector@.config) =~= base);
            }
        },
    }
    proof {
        lemma_insert_all(base + option_pairs(selector@.config));
    }
    d
}

/// Folding two pair lists in turn is folding their concatenation.
pub proof fn lemma_insert_all_concat(s: Seq<SpecPair>, a: Seq<SpecPair>, b: Seq<SpecPair>)
    ensures
        insert_all(insert_all(s, a), b) == insert_all(s, a + b),
    decreases b.len(),
{
    if b.len() == 0 {
        assert(a + b =~= a);
    } else {
        lemma_insert_all_concat(s, a, b.drop_last());
        assert((a + b).drop_last() =~= a + b.drop_last());
        assert((a + b).last() == b.last());
    }
}

/// Assembles the environment candidate for one selector: role-specific
/// derived values, then the user's environment overrides, later sources
/// winning on key collision.
pub fn get_env_variables(selector: &SparkNodeSelector) -> (r: ConfigDict)
    ensures
        r.wf(),
        r.pairs() == env_pairs(selector@),
        r.as_map() == pairs_to_map(env_base_pairs(selector@) + option_pairs(selector@.env)),
{
    let ghost base = env_base_pairs(selector@);
    let mut d = ConfigDict::new();
    let ghost e = Seq::<SpecPair>::empty();
    let ghost mut ps = Seq::<SpecPair>::empty();

    match selector.master_port {
        Some(port) => {
            d.insert("SPARK_MASTER_PORT".to_owned(), usize_to_string(port));
            proof {
                lemma_insert_all_push(e, ps, "SPARK_MASTER_PORT"@, dec_of(port as nat));
                ps = ps.push(("SPARK_MASTER_PORT"@, dec_of(port as nat)));
            }
        },
        None => {},
    }
    match selector.master_web_ui_port {
        Some(port) => {
            d.insert("SPARK_MASTER_WEBUI_PORT".to_owned(), usize_to_string(port));
            proof {
                lemma_insert_all_push(e, ps, "SPARK_MASTER_WEBUI_PORT"@, dec_of(port as nat));
                ps = ps.push(("SPARK_MASTER_WEBUI_PORT"@, dec_of(port as nat)));
            }
        },
        None => {},
    }
    match selector.cores {
        Some(cores) => {
            d.insert("SPARK_WORKER_CORES".to_owned(), usize_to_string(cores));
            proof {
                lemma_insert_all_push(e, ps, "SPARK_WORKER_CORES"@, dec_of(cores as nat));
                ps = ps.push(("SPARK_WORKER_CORES"@, dec_of(cores as nat)));
            }
        },
        None => {},
    }
    match &selector.memory {
        Some(memory) => {
            d.insert("SPARK_WORKER_MEMORY".to_owned(), memory.clone());
            proof {
                lemma_insert_all_push(e, ps, "SPARK_WORKER_MEMORY"@, memory@);
                ps = ps.push(("SPARK_WORKER_MEMORY"@, memory@));
            }
        },
        None => {},
    }
    match selector.worker_port {
        Some(port) => {
            d.insert("SPARK_WORKER_PORT".to_owned(), usize_to_string(port));
            proof {
                lemma_insert_all_push(e, ps, "SPARK_WORKER_PORT"@, dec_of(port as nat));
                ps = ps.push(("SPARK_WORKER_PORT"@, dec_of(port as nat)));
            }
        },
        None => {},
    }
    match selector.worker_web_ui_port {
        Some(port) => {
            d.insert("SPARK_WORKER_WEBUI_PORT".to_owned(), usize_to_string(port));
            proof {
                lemma_insert_all_push(e, ps, "SPARK_WORKER_WEBUI_PORT"@, dec_of(port as nat));
                ps = ps.push(("SPARK_WORKER_WEBUI_PORT"@, dec_of(port as nat)));
            }
        },
        None => {},
    }
    proof {
        assert(ps =~= base);
        assert(d.pairs() == insert_all(e, base));
    }

    match &selector.env {
        Some(l) => {
            insert_options(&mut d, l);
            proof {
                lemma_insert_all_concat(e, base, option_pairs(selector@.env));
            }
        },
        None => {
            proof {
                assert(base + option_pairs(selector@.env) =~= base);
            }
        },
    }
    proof {
        lemma_insert_all(base + option_pairs(selector@.env));
    }
    d
}

/// The pairs that survive validator filtering, in verdict order: only
/// `Recommended` and `Valid` verdicts contribute, and they contribute the
/// validator's returned value, not the submitted one.
pub open spec fn filtered_pairs(vs: Seq<(String, Classification)>) -> Seq<SpecPair>
    decreases vs.len(),
{
    if vs.len() == 0 {
        Seq::<SpecPair>::empty()
    } else {
        let rest = filtered_pairs(vs.drop_last());
        match vs.last().1 {
            Classification::Recommended(v) => dict_insert(rest, vs.last().0@, v@),
            Classification::Valid(v) => dict_insert(rest, vs.last().0@, v@),
            _ => rest,
        }
    }
}

/// Applies the external validator's per-key verdicts to a candidate map:
/// only `Recommended` and `Valid` values are written to the final map, with
/// the validator's returned value; `Default`, `Warn` and `Error` keys are
/// omitted, and processing never aborts. The result can legitimately hold
/// fewer keys than were submitted.
pub fn process_product_config(verdicts: &Vec<(String, Classification)>) -> (r: ConfigDict)
    ensures
        r.wf(),
        r.pairs() == filtered_pairs(verdicts@),
{
    let mut d = ConfigDict::new();
    let n = verdicts.len();
    let mut i: usize = 0;
    while i < n
        invariant
            i <= n,
            n == verdicts@.len(),
            d.wf(),
            d.pairs() == filtered_pairs(verdicts@.take(i as int)),
        decreases n - i,
    {
        proof {
            assert(verdicts@.take(i + 1).drop_last() =~= verdicts@.take(i as int));
            assert(verdicts@.take(i + 1).last() == verdicts@[i as int]);
        }
        match &verdicts[i].1 {
            Classification::Recommended(v) => {
                d.insert(verdicts[i].0.clone(), v.clone());
            },
            Classification::Valid(v) => {
                d.insert(verdicts[i].0.clone(), v.clone());
            },
            Classification::Default(_) => {},
            Classification::Warn(_, _) => {},
            Classification::Error(_) => {},
        }
        i = i + 1;
    }
    proof {
        assert(verdicts@.take(n as int) =~= verdicts@);
    }
    d
}

/// A key survives validator filtering exactly when some verdict for it is
/// `Recommended` or `Valid`: `Default`, `Warn` and `Error` keys never reach
/// the final map.
pub proof fn lemma_validator_filtering(vs: Seq<(String, Classification)>, k: Seq<char>)
    ensures
        pairs_to_map(filtered_pairs(vs)).contains_key(k) <==> exists|i: int|
            0 <= i < vs.len() && (#[trigger] vs[i]).0@ == k && (vs[i].1 matches
            Classification::Recommended(_) || vs[i].1 matches Classification::Valid(_)),
    decreases vs.len(),
{
    crate::dict::lemma_map_contains(filtered_pairs(vs), k);
    if vs.len() == 0 {
    } else {
        lemma_validator_filtering(vs.drop_last(), k);
        crate::dict::lemma_map_contains(filtered_pairs(vs.drop_last()), k);
        let rest = filtered_pairs(vs.drop_last());
        let n = vs.len() - 1;
        assert(forall|i: int| 0 <= i < n ==> vs.drop_last()[i] == vs[i]);
        match vs.last().1 {
            Classification::Recommended(v) => {
                lemma_dict_insert_has_key(rest, vs.last().0@, v@, k);
                if vs.last().0@ == k {
                    assert((#[trigger] vs[n]).0@ == k);
                }
            },
            Classification::Valid(v) => {
                lemma_dict_insert_has_key(rest, vs.last().0@, v@, k);
                if vs.last().0@ == k {
                    assert((#[trigger] vs[n]).0@ == k);
                }
            },
            _ => {},
        }
        if exists|i: int|
            0 <= i < vs.len() && (#[trigger] vs[i]).0@ == k && (vs[i].1 matches
            Classification::Recommended(_) || vs[i].1 matches Classification::Valid(_)) {
            let i = choose|i: int|
                0 <= i < vs.len() && (#[trigger] vs[i]).0@ == k && (vs[i].1 matches
                Classification::Recommended(_) || vs[i].1 matches Classification::Valid(_));
            if i < n {
                assert((#[trigger] vs.drop_last()[i]).0@ == k && (vs.drop_last()[i].1 matches
                Classification::Recommended(_) || vs.drop_last()[i].1 matches
                Classification::Valid(_)));
                assert(has_key(rest, k));
            }
        }
    }
}

/// Holds when no two verdicts carry the same key, as with verdicts taken
/// from a validator's map.
pub open spec fn unique_verdict_keys(vs: Seq<(String, Classification)>) -> bool {
    forall|a: int, b: int| 0 <= a < b < vs.len() ==> (#[trigger] vs[a]).0@ != (#[trigger] vs[b]).0@
}

/// Validator filtering keeps keys unique.
pub proof fn lemma_filtered_pairs_wf(vs: Seq<(String, Classification)>)
    ensures
        unique_keys(filtered_pairs(vs)),
    decreases vs.len(),
{
    if vs.len() == 0 {
    } else {
        lemma_filtered_pairs_wf(vs.drop_last());
        match vs.last().1 {
            Classification::Recommended(v) => {
                lemma_dict_insert(filtered_pairs(vs.drop_last()), vs.last().0@, v@);
            },
            Classification::Valid(v) => {
                lemma_dict_insert(filtered_pairs(vs.drop_last()), vs.last().0@, v@);
            },
            _ => {},
        }
    }
}

/// An accepted key takes the validator's returned value, not the submitted
/// one: a `Recommended` or `Valid` verdict writes exactly its payload to the
/// final map.
pub proof fn lemma_validator_value(vs: Seq<(String, Classification)>, i: int)
    requires
        unique_verdict_keys(vs),
        0 <= i < vs.len(),
    ensures
        vs[i].1 matches Classification::Recommended(v) ==> pairs_to_map(filtered_pairs(vs))[
            vs[i].0@] == v@,
        vs[i].1 matches Classification::Valid(v) ==> pairs_to_map(filtered_pairs(vs))[vs[i].0@]
            == v@,
    decreases vs.len(),
{
    let k = vs[i].0@;
    let n = vs.len() - 1;
    let rest = filtered_pairs(vs.drop_last());
    lemma_filtered_pairs_wf(vs.drop_last());
    if i == n {
        match vs.last().1 {
            Classification::Recommended(v) => {
                lemma_dict_insert(rest, k, v@);
            },
            Classification::Valid(v) => {
                lemma_dict_insert(rest, k, v@);
            },
            _ => {},
        }
    } else {
        assert(unique_verdict_keys(vs.drop_last())) by {
            assert(forall|a: int| 0 <= a < n ==> vs.drop_last()[a] == vs[a]);
        }
        assert(vs.drop_last()[i] == vs[i]);
        lemma_validator_value(vs.drop_last(), i);
        assert((#[trigger] vs[i]).0@ != (#[trigger] vs[n]).0@);
        match vs.last().1 {
            Classification::Recommended(v) => {
                lemma_dict_insert(rest, vs.last().0@, v@);
            },
            Classification::Valid(v) => {
                lemma_dict_insert(rest, vs.last().0@, v@);
            },
            _ => {},
        }
    }
}

/// Key membership after a last-writer-wins insertion.
proof fn lemma_dict_insert_has_key(s: Seq<SpecPair>, k: Seq<char>, v: Seq<char>, q: Seq<char>)
    ensures
        has_key(dict_insert(s, k, v), q) <==> (q == k || has_key(s, q)),
{
    let u = dict_insert(s, k, v);
    if has_key(s, k) {
        let f = crate::dict::find_key(s, k);
        assert(0 <= f < s.len() && (#[trigger] s[f]).0 == k);
        assert forall|i: int| 0 <= i < u.len() implies (#[trigger] u[i]).0 == (if i == f {
            k
        } else {
            s[i].0
        }) by {}
        if has_key(u, q) {
            let i = choose|i: int| 0 <= i < u.len() && (#[trigger] u[i]).0 == q;
            if i != f {
                assert((#[trigger] s[i]).0 == q);
            }
        }
        if q == k {
            assert((#[trigger] u[f]).0 == q);
        } else if has_key(s, q) {
            let i = choose|i: int| 0 <= i < s.len() && (#[trigger] s[i]).0 == q;
            assert(i != f);
            assert((#[trigger] u[i]).0 == q);
        }
    } else {
        if has_key(u, q) {
            let i = choose|i: int| 0 <= i < u.len() && (#[trigger] u[i]).0 == q;
            if i < s.len() {
                assert((#[trigger] s[i]).0 == q);
            }
        }
        if q == k {
            assert((#[trigger] u[s.len() as int]).0 == q);
        } else if has_key(s, q) {
            let i = choose|i: int| 0 <= i < s.len() && (#[trigger] s[i]).0 == q;
            assert((#[trigger] u[i]).0 == q);
        }
    }
}

/// Precedence determinism: on overlapping keys the final properties map
/// always reflects the highest-precedence tier. A key in the user's
/// overrides takes the user's (last) value; a key only in the derived tiers
/// takes the derived value; no other keys appear.
pub proof fn lemma_precedence(cs: SparkClusterSpecView, sv: SparkNodeSelectorView, k: Seq<char>)
    ensures
        pairs_to_map(option_pairs(sv.config)).contains_key(k) ==> pairs_to_map(
            properties_base_pairs(cs, sv) + option_pairs(sv.config),
        )[k] == pairs_to_map(option_pairs(sv.config))[k],
        !pairs_to_map(option_pairs(sv.config)).contains_key(k) && pairs_to_map(
            properties_base_pairs(cs, sv),
        ).contains_key(k) ==> pairs_to_map(properties_base_pairs(cs, sv) + option_pairs(sv.config))[
            k] == pairs_to_map(properties_base_pairs(cs, sv))[k],
        pairs_to_map(properties_base_pairs(cs, sv) + option_pairs(sv.config)).contains_key(k) <==> (
        pairs_to_map(properties_base_pairs(cs, sv)).contains_key(k) || pairs_to_map(
            option_pairs(sv.config),
        ).contains_key(k)),
{
    lemma_map_concat(properties_base_pairs(cs, sv), option_pairs(sv.config));
}

/// With a cluster secret set and no user override for the authentication
/// keys, the final properties map enables authentication and carries the
/// secret.
pub proof fn lemma_secret_enables_authentication(
    cs: SparkClusterSpecView,
    sv: SparkNodeSelectorView,
)
    requires
        cs.secret is Some,
        !has_key(option_pairs(sv.config), "spark.authenticate"@),
        !has_key(option_pairs(sv.config), "spark.authenticate.secret"@),
    ensures
        pairs_to_map(properties_base_pairs(cs, sv) + option_pairs(sv.config))[
            "spark.authenticate"@] == "true"@,
        pairs_to_map(properties_base_pairs(cs, sv) + option_pairs(sv.config))[
            "spark.authenticate.secret"@] == cs.secret.unwrap(),
        pairs_to_map(properties_base_pairs(cs, sv) + option_pairs(sv.config)).contains_key(
            "spark.authenticate"@,
        ),
        pairs_to_map(properties_base_pairs(cs, sv) + option_pairs(sv.config)).contains_key(
            "spark.authenticate.secret"@,
        ),
{
    let base = properties_base_pairs(cs, sv);
    let user = option_pairs(sv.config);
    lemma_precedence(cs, sv, "spark.authenticate"@);
    lemma_precedence(cs, sv, "spark.authenticate.secret"@);
    crate::dict::lemma_map_contains(user, "spark.authenticate"@);
    crate::dict::lemma_map_contains(user, "spark.authenticate.secret"@);
    lemma_properties_base_unique(cs, sv);
    assert(base[3] == ("spark.authenticate"@, "true"@));
    assert(base[4] == ("spark.authenticate.secret"@, cs.secret.unwrap()));
    lemma_map_value(base, 3);
    lemma_map_value(base, 4);
}

/// The derived tiers of the properties candidate never repeat a key.
pub proof fn lemma_properties_base_unique(cs: SparkClusterSpecView, sv: SparkNodeSelectorView)
    ensures
        unique_keys(properties_base_pairs(cs, sv)),
{
    broadcast use vstd::string::group_string_axioms;

    reveal_strlit("spark.eventLog.enabled");
    reveal_strlit("spark.eventLog.dir");
    reveal_strlit("spark.history.fs.logDirectory");
    reveal_strlit("spark.authenticate");
    reveal_strlit("spark.authenticate.secret");
    reveal_strlit("spark.port.maxRetries");
    reveal_strlit("spark.history.store.path");
    reveal_strlit("spark.history.ui.port");
    let base = properties_base_pairs(cs, sv);
    assert("spark.eventLog.enabled"@.len() == 22);
    assert("spark.eventLog.dir"@.len() == 18);
    assert("spark.history.fs.logDirectory"@.len() == 29);
    assert("spark.authenticate"@.len() == 18);
    assert("spark.authenticate.secret"@.len() == 25);
    assert("spark.port.maxRetries"@.len() == 21);
    assert("spark.history.store.path"@.len() == 24);
    assert("spark.history.ui.port"@.len() == 21);
    assert("spark.eventLog.dir"@[6] == 'e' && "spark.authenticate"@[6] == 'a');
    assert("spark.port.maxRetries"@[6] == 'p' && "spark.history.ui.port"@[6] == 'h');
    assert forall|i: int, j: int| 0 <= i < j < base.len() implies (#[trigger] base[i]).0 != (
    #[trigger] base[j]).0 by {}
}

/// Idempotence of the merge engine: the assembled candidates and the
/// filtered final map are functions of their inputs alone, so two results
/// computed from identical inputs (including identical validator verdicts)
/// are identical, entry for entry and in order.
pub proof fn lemma_merge_idempotent(
    p1: ConfigDict,
    p2: ConfigDict,
    f1: ConfigDict,
    f2: ConfigDict,
    cs: SparkClusterSpecView,
    sv: SparkNodeSelectorView,
    vs: Seq<(String, Classification)>,
)
    requires
        p1.pairs() == properties_pairs(cs, sv),
        p2.pairs() == properties_pairs(cs, sv),
        f1.pairs() == filtered_pairs(vs),
        f2.pairs() == filtered_pairs(vs),
    ensures
        p1.pairs() == p2.pairs(),
        p1.as_map() == p2.as_map(),
        f1.pairs() == f2.pairs(),
        f1.as_map() == f2.as_map(),
{
}

/// The environment variables every launched workload process must receive
/// regardless of user overrides: the no-daemonize flag and the
/// configuration-directory path, which must exist before the workload's own
/// configuration system loads.
pub fn create_required_startup_env() -> (r: Vec<ConfigOption>)
    ensures
        r@.len() == 2,
        r@[0]@ == (ConfigOptionView { name: "SPARK_NO_DAEMONIZE"@, value: "true"@ }),
        r@[1]@ == (ConfigOptionView { name: "SPARK_CONF_DIR"@, value: "{{configroot}}/conf"@ }),
{
    let mut r: Vec<ConfigOption> = Vec::new();
    r.push(
        ConfigOption { name: "SPARK_NO_DAEMONIZE".to_owned(), value: "true".to_owned() },
    );
    r.push(
        ConfigOption {
            name: "SPARK_CONF_DIR".to_owned(),
            value: "{{configroot}}/conf".to_owned(),
        },
    );
    r
}

} // verus!
