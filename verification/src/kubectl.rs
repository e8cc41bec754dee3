//! Decisions of the orchestrator adapter: how a pod is judged ready, how
//! a pod is chosen for a workload, how a label selector renders, and the
//! exact argument lists handed to the orchestrator's command-line client.

use vstd::prelude::*;
use crate::strutil::{join_with, join_all, keep_nonempty, filter_nonempty, str_eq, trim_spec, trim_str};

verus! {

/// Where commands execute: the fully resolved target of a run.
#[derive(Debug, Clone)]
pub struct RemoteTarget {
    pub context: Option<String>,
    pub namespace: String,
    pub pod: String,
    pub container: String,
}

/// A pod's stable identifier and its container names.
#[derive(Debug, Clone)]
pub struct PodInfo {
    pub uid: String,
    pub containers: Vec<String>,
}

/// One readiness condition reported for a pod.
pub struct PodCondition {
    pub cond_type: String,
    pub status: String,
}

/// The reported state of a pod.
pub struct PodStatus {
    pub phase: Option<String>,
    pub conditions: Option<Vec<PodCondition>>,
}

/// One pod of a listing.
pub struct PodListItem {
    pub name: String,
    pub status: Option<PodStatus>,
}

/// One expression of a label selector.
pub struct MatchExpression {
    pub key: String,
    pub operator: String,
    pub values: Vec<String>,
}

/// A workload's label selector: equalities and expressions.
pub struct LabelSelector {
    pub match_labels: Vec<(String, String)>,
    pub match_expressions: Vec<MatchExpression>,
}

/// The reported state of a deployment.
pub struct DeploymentStatus {
    pub available_replicas: Option<u32>,
    pub ready_replicas: Option<u32>,
}

/// The reported state of a job.
pub struct JobStatus {
    pub succeeded: Option<u32>,
    pub active: Option<u32>,
    pub ready: Option<u32>,
}

/// An adapter failure, carried as a message.
#[derive(Debug, Clone)]
pub struct KubeError {
    pub message: String,
}

/// A pod that is running and has a condition of type Ready with status
/// True.
pub open spec fn spec_is_ready(pod: PodListItem) -> bool {
    match pod.status {
        Option::Some(st) => {
            &&& match st.phase {
                Option::Some(p) => p@ == "Running"@,
                Option::None => false,
            }
            &&& match st.conditions {
                Option::Some(cs) => exists|i: int|
                    0 <= i < cs@.len() && cs@[i].cond_type@ == "Ready"@ && cs@[i].status@
                        == "True"@,
                Option::None => false,
            }
        },
        Option::None => false,
    }
}

/// A pod whose reported phase is Running.
pub open spec fn spec_is_running(pod: PodListItem) -> bool {
    match pod.status {
        Option::Some(st) => match st.phase {
            Option::Some(p) => p@ == "Running"@,
            Option::None => false,
        },
        Option::None => false,
    }
}

/// True iff the pod is running and reports Ready.
#[verifier::loop_isolation(false)]
pub fn is_ready(pod: &PodListItem) -> (r: bool)
    ensures
        r == spec_is_ready(*pod),
{
    let st = match &pod.status {
        Some(s) => s,
        None => {
            return false;
        },
    };
    let ph = match &st.phase {
        Some(p) => p,
        None => {
            return false;
        },
    };
    if !str_eq(ph.as_str(), "Running") {
        return false;
    }
    let cs = match &st.conditions {
        Some(c) => c,
        None => {
            return false;
        },
    };
    let mut i: usize = 0;
    while i < cs.len()
        invariant
            i <= cs@.len(),
            forall|k: int|
                0 <= k < i ==> !(cs@[k].cond_type@ == "Ready"@ && cs@[k].status@ == "True"@),
        decreases cs@.len() - i,
    {
        let c = &cs[i];
        if str_eq(c.cond_type.as_str(), "Ready") && str_eq(c.status.as_str(), "True") {
            proof {
                assert(cs@[i as int].cond_type@ == "Ready"@ && cs@[i as int].status@ == "True"@);
            }
            return true;
        }
        i += 1;
    }
    false
}

/// True iff the pod's phase is Running.
pub fn is_running(pod: &PodListItem) -> (r: bool)
    ensures
        r == spec_is_running(*pod),
{
    let st = match &pod.status {
        Some(s) => s,
        None => {
            return false;
        },
    };
    match &st.phase {
        None => false,
        Some(p) => str_eq(p.as_str(), "Running"),
    }
}

/// The first ready pod of a listing, if any.
pub open spec fn spec_find_ready(items: Seq<PodListItem>) -> Option<PodListItem>
    decreases items.len(),
{
    if items.len() == 0 {
        Option::None
    } else if spec_is_ready(items.first()) {
        Option::Some(items.first())
    } else {
        spec_find_ready(items.drop_first())
    }
}

/// The first running pod of a listing, if any.
pub open spec fn spec_find_running(items: Seq<PodListItem>) -> Option<PodListItem>
    decreases items.len(),
{
    if items.len() == 0 {
        Option::None
    } else if spec_is_running(items.first()) {
        Option::Some(items.first())
    } else {
        spec_find_running(items.drop_first())
    }
}

/// The candidate ranking: the first ready pod, else the first running
/// pod, else the first pod.
pub open spec fn spec_choose_pod(items: Seq<PodListItem>) -> Seq<char>
    recommends
        items.len() > 0,
{
    match spec_find_ready(items) {
        Option::Some(p) => p.name@,
        Option::None => match spec_find_running(items) {
            Option::Some(p) => p.name@,
            Option::None => items.first().name@,
        },
    }
}

/// The failure reported when a selector matches no pods.
pub open spec fn no_pods_message(kind: Seq<char>, selector: Seq<char>, namespace: Seq<char>)
    -> Seq<char> {
    "no pods found for "@ + kind + " selector `"@ + selector + "` in namespace "@ + namespace
}

/// Picks the pod a workload resolves to, by the candidate ranking; an
/// empty listing is the selector-matched-nothing failure.
pub fn select_pod(items: &Vec<PodListItem>, kind: &str, selector: &str, namespace: &str) -> (r:
    Result<String, KubeError>)
    ensures
        items@.len() == 0 <==> r is Err,
        r is Err ==> r->Err_0.message@ == no_pods_message(kind@, selector@, namespace@),
        items@.len() > 0 ==> r is Ok && r->Ok_0@ == spec_choose_pod(items@),
{
    if items.len() == 0 {
        let mut m = String::from_str("no pods found for ");
        m.append(kind);
        m.append(" selector `");
        m.append(selector);
        m.append("` in namespace ");
        m.append(namespace);
        return Err(KubeError { message: m });
    }
    let mut i: usize = 0;
    proof {
        assert(items@.skip(0) =~= items@);
    }
    while i < items.len()
        invariant
            i <= items@.len(),
            spec_find_ready(items@) == spec_find_ready(items@.skip(i as int)),
        decreases items@.len() - i,
    {
        proof {
            assert(items@.skip(i as int).first() == items@[i as int]);
            assert(items@.skip(i as int).drop_first() =~= items@.skip(i + 1));
        }
        if is_ready(&items[i]) {
            return Ok(items[i].name.clone());
        }
        i += 1;
    }
    proof {
        assert(items@.skip(items@.len() as int) =~= Seq::<PodListItem>::empty());
    }
    let mut i: usize = 0;
    proof {
        assert(items@.skip(0) =~= items@);
    }
    while i < items.len()
        invariant
            i <= items@.len(),
            spec_find_running(items@) == spec_find_running(items@.skip(i as int)),
            spec_find_ready(items@) is None,
        decreases items@.len() - i,
    {
        proof {
            assert(items@.skip(i as int).first() == items@[i as int]);
            assert(items@.skip(i as int).drop_first() =~= items@.skip(i + 1));
        }
        if is_running(&items[i]) {
            return Ok(items[i].name.clone());
        }
        i += 1;
    }
    proof {
        assert(items@.skip(items@.len() as int) =~= Seq::<PodListItem>::empty());
    }
    Ok(items[0].name.clone())
}

/// The rendering of one selector expression, or the message refusing it.
pub open spec fn spec_expr_part(e: MatchExpression) -> Result<Seq<char>, Seq<char>> {
    if e.operator@ == "In"@ {
        if e.values@.len() == 0 {
            Result::Err("matchExpressions In requires values"@)
        } else {
            Result::Ok(
                e.key@ + " in ("@ + join_with(e.values@.map_values(|v: String| v@), ","@) + ")"@,
            )
        }
    } else if e.operator@ == "NotIn"@ {
        if e.values@.len() == 0 {
            Result::Err("matchExpressions NotIn requires values"@)
        } else {
            Result::Ok(
                e.key@ + " notin ("@ + join_with(e.values@.map_values(|v: String| v@), ","@)
                    + ")"@,
            )
        }
    } else if e.operator@ == "Exists"@ {
        Result::Ok(e.key@)
    } else if e.operator@ == "DoesNotExist"@ {
        Result::Ok("!"@ + e.key@)
    } else {
        Result::Err("unsupported matchExpression operator: "@ + e.operator@)
    }
}

/// The renderings of the expressions in order, or the first refusal.
pub open spec fn spec_expr_parts(es: Seq<MatchExpression>) -> Result<Seq<Seq<char>>, Seq<char>>
    decreases es.len(),
{
    if es.len() == 0 {
        Result::Ok(Seq::empty())
    } else {
        match spec_expr_part(es.first()) {
            Result::Err(m) => Result::Err(m),
            Result::Ok(p) => match spec_expr_parts(es.drop_first()) {
                Result::Err(m) => Result::Err(m),
                Result::Ok(r) => Result::Ok(seq![p] + r),
            },
        }
    }
}

/// The rendering of one equality label.
pub open spec fn spec_label_part(kv: (String, String)) -> Seq<char> {
    kv.0@ + "="@ + kv.1@
}

/// The selector string of labels and expressions: equalities first, then
/// expressions, comma-joined; empty selectors and bad expressions are
/// refused with their messages.
pub open spec fn spec_selector_of(labels: Seq<(String, String)>, exprs: Seq<MatchExpression>)
    -> Result<Seq<char>, Seq<char>> {
    match spec_expr_parts(exprs) {
        Result::Err(m) => Result::Err(m),
        Result::Ok(ep) => {
            let parts = labels.map_values(|kv: (String, String)| spec_label_part(kv)) + ep;
            if parts.len() == 0 {
                Result::Err("label selector is empty"@)
            } else {
                Result::Ok(join_with(parts, ","@))
            }
        },
    }
}

/// The view of a selector-rendering outcome.
pub open spec fn selector_result_view(r: Result<String, KubeError>) -> Result<
    Seq<char>,
    Seq<char>,
> {
    match r {
        Result::Ok(s) => Result::Ok(s@),
        Result::Err(e) => Result::Err(e.message@),
    }
}

/// Renders a label selector, as `spec_selector_of` says.
pub fn to_selector(sel: &LabelSelector) -> (r: Result<String, KubeError>)
    ensures
        selector_result_view(r) == spec_selector_of(sel.match_labels@, sel.match_expressions@),
{
    let ghost lp = sel.match_labels@.map_values(|kv: (String, String)| spec_label_part(kv));
    let mut parts: Vec<String> = Vec::new();
    let mut i: usize = 0;
    while i < sel.match_labels.len()
        invariant
            i <= sel.match_labels@.len(),
            lp == sel.match_labels@.map_values(|kv: (String, String)| spec_label_part(kv)),
            parts@.map_values(|p: String| p@) == lp.subrange(0, i as int),
        decreases sel.match_labels@.len() - i,
    {
        let kv = &sel.match_labels[i];
        let mut part = String::from_str(kv.0.as_str());
        part.append("=");
        part.append(kv.1.as_str());
        parts.push(part);
        proof {
            assert(lp.subrange(0, i + 1) =~= lp.subrange(0, i as int).push(lp[i as int]));
            assert(parts@.map_values(|p: String| p@) =~= lp.subrange(0, i as int).push(
                lp[i as int],
            ));
        }
        i += 1;
    }
    proof {
        assert(lp.subrange(0, lp.len() as int) =~= lp);
    }

    let ghost ev = sel.match_expressions@;
    let ghost mut done: Seq<Seq<char>> = Seq::empty();
    proof {
        assert(ev.skip(0) =~= ev);
        assert(parts@.map_values(|p: String| p@) =~= lp + done);
    }
    let mut j: usize = 0;
    while j < sel.match_expressions.len()
        invariant
            j <= ev.len(),
            ev == sel.match_expressions@,
            lp == sel.match_labels@.map_values(|kv: (String, String)| spec_label_part(kv)),
            parts@.map_values(|p: String| p@) == lp + done,
            spec_expr_parts(ev) == match spec_expr_parts(ev.skip(j as int)) {
                Result::<Seq<Seq<char>>, Seq<char>>::Ok(r2) => Result::<
                    Seq<Seq<char>>,
                    Seq<char>,
                >::Ok(done + r2),
                Result::<Seq<Seq<char>>, Seq<char>>::Err(m) => Result::<
                    Seq<Seq<char>>,
                    Seq<char>,
                >::Err(m),
            },
        decreases ev.len() - j,
    {
        proof {
            assert(ev.skip(j as int).first() == ev[j as int]);
            assert(ev.skip(j as int).drop_first() =~= ev.skip(j + 1));
        }
        let e = &sel.match_expressions[j];
        let part: String = match expr_part(e) {
            Ok(p) => p,
            Err(er) => {
                return Err(er);
            },
        };
        let ghost pv = part@;
        let ghost m0 = parts@.map_values(|p: String| p@);
        parts.push(part);
        proof {
            let done0 = done;
            done = done0.push(pv);
            assert(m0 == lp + done0);
            assert(parts@.map_values(|p: String| p@) =~= m0.push(pv));
            assert(m0.push(pv) =~= lp + done);
            if spec_expr_parts(ev.skip(j + 1)) is Ok {
                let r2 = spec_expr_parts_ok(ev.skip(j + 1));
                assert(done0 + (seq![pv] + r2) =~= done + r2);
            }
        }
        j += 1;
    }
    proof {
        assert(ev.skip(ev.len() as int) =~= Seq::<MatchExpression>::empty());
        assert(spec_expr_parts(ev) == Result::<Seq<Seq<char>>, Seq<char>>::Ok(done));
    }
    if parts.len() == 0 {
        return Err(KubeError { message: String::from_str("label selector is empty") });
    }
    let joined = join_all(&parts, ",");
    Ok(joined)
}

/// The parts of an expression rendering known to succeed.
pub open spec fn spec_expr_parts_ok(es: Seq<MatchExpression>) -> Seq<Seq<char>> {
    match spec_expr_parts(es) {
        Result::Ok(r) => r,
        Result::Err(_) => Seq::empty(),
    }
}

/// Renders one selector expression, as `spec_expr_part` says.
fn expr_part(e: &MatchExpression) -> (r: Result<String, KubeError>)
    ensures
        match r {
            Result::Ok(p) => spec_expr_part(*e) == Result::<Seq<char>, Seq<char>>::Ok(p@),
            Result::Err(er) => spec_expr_part(*e) == Result::<Seq<char>, Seq<char>>::Err(
                er.message@,
            ),
        },
{
    if str_eq(e.operator.as_str(), "In") {
        if e.values.len() == 0 {
            return Err(KubeError { message: String::from_str("matchExpressions In requires values") });
        }
        let mut p = String::from_str(e.key.as_str());
        p.append(" in (");
        p.append(join_all(&e.values, ",").as_str());
        p.append(")");
        Ok(p)
    } else if str_eq(e.operator.as_str(), "NotIn") {
        if e.values.len() == 0 {
            return Err(KubeError { message: String::from_str("matchExpressions NotIn requires values") });
        }
        let mut p = String::from_str(e.key.as_str());
        p.append(" notin (");
        p.append(join_all(&e.values, ",").as_str());
        p.append(")");
        Ok(p)
    } else if str_eq(e.operator.as_str(), "Exists") {
        Ok(e.key.clone())
    } else if str_eq(e.operator.as_str(), "DoesNotExist") {
        let mut p = String::from_str("!");
        p.append(e.key.as_str());
        Ok(p)
    } else {
        let mut m = String::from_str("unsupported matchExpression operator: ");
        m.append(e.operator.as_str());
        Err(KubeError { message: m })
    }
}

/// The selector a job resolves through: its own selector when it has
/// one, else its template's labels when any, else its name as the
/// job-name label.
pub open spec fn spec_job_selector(
    selector: Option<LabelSelector>,
    template_labels: Option<Vec<(String, String)>>,
    job: Seq<char>,
) -> Result<Seq<char>, Seq<char>> {
    match selector {
        Option::Some(s) => spec_selector_of(s.match_labels@, s.match_expressions@),
        Option::None => match template_labels {
            Option::Some(ls) => if ls@.len() > 0 {
                spec_selector_of(ls@, Seq::empty())
            } else {
                Result::Ok("job-name="@ + job)
            },
            Option::None => Result::Ok("job-name="@ + job),
        },
    }
}

/// Renders the selector a job resolves through, as `spec_job_selector`
/// says.
pub fn job_selector(
    selector: &Option<LabelSelector>,
    template_labels: &Option<Vec<(String, String)>>,
    job: &str,
) -> (r: Result<String, KubeError>)
    ensures
        selector_result_view(r) == spec_job_selector(*selector, *template_labels, job@),
{
    match selector {
        Some(s) => to_selector(s),
        None => match template_labels {
            Some(ls) => {
                if ls.len() > 0 {
                    let sel = LabelSelector {
                        match_labels: clone_pairs(ls),
                        match_expressions: Vec::new(),
                    };
                    let r = to_selector(&sel);
                    proof {
                        assert(sel.match_expressions@ =~= Seq::<MatchExpression>::empty());
                        assert(sel.match_labels@.map_values(
                            |kv: (String, String)| spec_label_part(kv),
                        ) == ls@.map_values(|kv: (String, String)| spec_label_part(kv)));
                    }
                    r
                } else {
                    let mut m = String::from_str("job-name=");
                    m.append(job);
                    Ok(m)
                }
            },
            None => {
                let mut m = String::from_str("job-name=");
                m.append(job);
                Ok(m)
            },
        },
    }
}

/// Copies a list of label pairs.
fn clone_pairs(ls: &Vec<(String, String)>) -> (r: Vec<(String, String)>)
    ensures
        r@.map_values(|kv: (String, String)| spec_label_part(kv)) == ls@.map_values(
            |kv: (String, String)| spec_label_part(kv),
        ),
        r@.len() == ls@.len(),
{
    let mut r: Vec<(String, String)> = Vec::new();
    let mut i: usize = 0;
    while i < ls.len()
        invariant
            i <= ls@.len(),
            r@.len() == i,
            forall|k: int|
                0 <= k < i ==> spec_label_part(#[trigger] r@[k]) == spec_label_part(ls@[k]),
        decreases ls@.len() - i,
    {
        let kv = &ls[i];
        r.push((kv.0.clone(), kv.1.clone()));
        i += 1;
    }
    proof {
        assert(r@.map_values(|kv: (String, String)| spec_label_part(kv)) =~= ls@.map_values(
            |kv: (String, String)| spec_label_part(kv),
        ));
    }
    r
}

/// The failure reported for a name outside the known contexts.
pub open spec fn unknown_context_message(ctx: Seq<char>, contexts: Seq<Seq<char>>) -> Seq<char> {
    "context `"@ + ctx + "` not found. Available contexts: "@ + join_with(contexts, ", "@)
}

/// Accepts a context name iff the known contexts hold it; the refusal
/// names them all.
pub fn ensure_context_exists(contexts: &Vec<String>, context: &str) -> (r: Result<(), KubeError>)
    ensures
        r is Ok <==> exists|i: int| 0 <= i < contexts@.len() && contexts@[i]@ == context@,
        r is Err ==> r->Err_0.message@ == unknown_context_message(
            context@,
            contexts@.map_values(|c: String| c@),
        ),
{
    let mut i: usize = 0;
    while i < contexts.len()
        invariant
            i <= contexts@.len(),
            forall|k: int| 0 <= k < i ==> contexts@[k]@ != context@,
        decreases contexts@.len() - i,
    {
        if str_eq(contexts[i].as_str(), context) {
            return Ok(());
        }
        i += 1;
    }
    let mut m = String::from_str("context `");
    m.append(context);
    m.append("` not found. Available contexts: ");
    m.append(join_all(contexts, ", ").as_str());
    Err(KubeError { message: m })
}

/// The context names read from a listing: its lines, trimmed, the blank
/// ones dropped.
pub open spec fn spec_context_list(out: Seq<char>) -> Seq<Seq<char>> {
    keep_nonempty(crate::install::spec_lines(out).map_values(|l: Seq<char>| trim_spec(l)))
}

/// Reads the context names of a listing, as `spec_context_list` says.
pub fn parse_context_list(out: &str) -> (r: Vec<String>)
    ensures
        r@.map_values(|c: String| c@) == spec_context_list(out@),
{
    let ls = crate::install::lines_of(out);
    let ghost lsv = ls@.map_values(|l: String| l@);
    let mut trimmed: Vec<String> = Vec::new();
    let mut i: usize = 0;
    while i < ls.len()
        invariant
            i <= ls@.len(),
            lsv == ls@.map_values(|l: String| l@),
            trimmed@.map_values(|c: String| c@) == lsv.subrange(0, i as int).map_values(
                |l: Seq<char>| trim_spec(l),
            ),
        decreases ls@.len() - i,
    {
        trimmed.push(String::from_str(trim_str(ls[i].as_str())));
        proof {
            assert(lsv.subrange(0, i + 1) =~= lsv.subrange(0, i as int).push(lsv[i as int]));
            assert(lsv.subrange(0, i + 1).map_values(|l: Seq<char>| trim_spec(l)) =~= lsv.subrange(
                0,
                i as int,
            ).map_values(|l: Seq<char>| trim_spec(l)).push(trim_spec(lsv[i as int])));
            assert(trimmed@.map_values(|c: String| c@) =~= lsv.subrange(0, i as int).map_values(
                |l: Seq<char>| trim_spec(l),
            ).push(trim_spec(lsv[i as int])));
        }
        i += 1;
    }
    proof {
        assert(lsv.subrange(0, lsv.len() as int) =~= lsv);
    }
    filter_nonempty(trimmed)
}

/// The query string that asks for a context's default namespace.
pub open spec fn spec_namespace_query(ctx: Seq<char>) -> Seq<char> {
    "jsonpath={.contexts[?(@.name==\""@ + ctx + "\")].context.namespace}"@
}

/// Builds the query for a context's default namespace.
pub fn context_namespace_query(ctx: &str) -> (r: String)
    ensures
        r@ == spec_namespace_query(ctx@),
{
    let mut r = String::from_str("jsonpath={.contexts[?(@.name==\"");
    r.append(ctx);
    r.append("\")].context.namespace}");
    r
}

/// Reads an optional namespace: the trimmed output, absent when blank.
pub fn parse_optional_namespace(out: &str) -> (r: Option<String>)
    ensures
        trim_spec(out@).len() == 0 <==> r is None,
        r is Some ==> r.unwrap()@ == trim_spec(out@),
{
    let t = trim_str(out);
    if t.unicode_len() == 0 {
        None
    } else {
        Some(String::from_str(t))
    }
}

/// A deployment with available or ready replicas.
pub open spec fn spec_deployment_ready(st: Option<DeploymentStatus>) -> bool {
    match st {
        Option::Some(s) => {
            let a: nat = match s.available_replicas {
                Option::Some(x) => x as nat,
                Option::None => 0,
            };
            let r: nat = match s.ready_replicas {
                Option::Some(x) => x as nat,
                Option::None => 0,
            };
            a + r > 0
        },
        Option::None => false,
    }
}

/// True iff the deployment has available or ready replicas.
pub fn deployment_is_ready(st: &Option<DeploymentStatus>) -> (r: bool)
    ensures
        r == spec_deployment_ready(*st),
{
    match st {
        None => false,
        Some(s) => {
            let a: u64 = match s.available_replicas {
                Some(x) => x as u64,
                None => 0,
            };
            let b: u64 = match s.ready_replicas {
                Some(x) => x as u64,
                None => 0,
            };
            a + b > 0
        },
    }
}

/// A job that succeeded, is ready, or is active.
pub open spec fn spec_job_ready(st: Option<JobStatus>) -> bool {
    match st {
        Option::Some(s) => {
            ||| match s.succeeded {
                Option::Some(x) => x > 0,
                Option::None => false,
            }
            ||| match s.ready {
                Option::Some(x) => x > 0,
                Option::None => false,
            }
            ||| match s.active {
                Option::Some(x) => x > 0,
                Option::None => false,
            }
        },
        Option::None => false,
    }
}

/// True iff the job succeeded, is ready, or is active.
pub fn job_is_ready(st: &Option<JobStatus>) -> (r: bool)
    ensures
        r == spec_job_ready(*st),
{
    match st {
        None => false,
        Some(s) => {
            let a: bool = match s.succeeded {
                Some(x) => x > 0,
                None => false,
            };
            let b: bool = match s.ready {
                Some(x) => x > 0,
                None => false,
            };
            let c: bool = match s.active {
                Some(x) => x > 0,
                None => false,
            };
            a || b || c
        },
    }
}

/// The suffix naming the ready resources of a kind.
pub open spec fn spec_ready_suffix(kind: Seq<char>, names: Seq<Seq<char>>) -> Seq<char> {
    " Ready "@ + kind + "s: "@ + join_with(names, ", "@)
}

/// Appends the ready-resource listing to a failure message; an empty
/// listing leaves the message alone.
pub fn append_ready_list(message: &str, kind: &str, names: &Vec<String>) -> (r: String)
    ensures
        names@.len() == 0 ==> r@ == message@,
        names@.len() > 0 ==> r@ == message@ + spec_ready_suffix(
            kind@,
            names@.map_values(|c: String| c@),
        ),
{
    let mut r = String::from_str(message);
    if names.len() > 0 {
        r.append(" Ready ");
        r.append(kind);
        r.append("s: ");
        r.append(join_all(names, ", ").as_str());
    }
    r
}


/// The argument list of an exec invocation: the optional context, the
/// exec verb, `-i` only when stdin is fed, then the namespace, pod,
/// container and the argument separator.
pub fn exec_args(
    context: &Option<String>,
    namespace: &str,
    pod: &str,
    container: &str,
    wants_stdin: bool,
) -> (r: Vec<String>)
    ensures
        r@.map_values(|a: String| a@) == (match context {
            Option::Some(c) => seq!["--context"@, c@],
            Option::None => Seq::<Seq<char>>::empty(),
        }) + seq!["exec"@] + (if wants_stdin {
            seq!["-i"@]
        } else {
            Seq::<Seq<char>>::empty()
        }) + seq!["-n"@, namespace@, pod@, "-c"@, container@, "--"@],
{
    let mut r: Vec<String> = Vec::new();
    match context {
        Some(c) => {
            r.push(String::from_str("--context"));
            r.push(c.clone());
        },
        None => {},
    }
    r.push(String::from_str("exec"));
    if wants_stdin {
        r.push(String::from_str("-i"));
    }
    r.push(String::from_str("-n"));
    r.push(String::from_str(namespace));
    r.push(String::from_str(pod));
    r.push(String::from_str("-c"));
    r.push(String::from_str(container));
    r.push(String::from_str("--"));
    proof {
        let tail = seq!["-n"@, namespace@, pod@, "-c"@, container@, "--"@];
        match context {
            Option::Some(c) => {
                if wants_stdin {
                    assert(r@.map_values(|a: String| a@) =~= seq!["--context"@, c@]
                        + seq!["exec"@] + seq!["-i"@] + tail);
                } else {
                    assert(r@.map_values(|a: String| a@) =~= seq!["--context"@, c@]
                        + seq!["exec"@] + Seq::<Seq<char>>::empty() + tail);
                }
            },
            Option::None => {
                if wants_stdin {
                    assert(r@.map_values(|a: String| a@) =~= Seq::<Seq<char>>::empty()
                        + seq!["exec"@] + seq!["-i"@] + tail);
                } else {
                    assert(r@.map_values(|a: String| a@) =~= Seq::<Seq<char>>::empty()
                        + seq!["exec"@] + Seq::<Seq<char>>::empty() + tail);
                }
            },
        }
    }
    r
}

/// The argument list that fetches one object as JSON.
pub fn get_object_args(kind: &str, name: &str, namespace: &str) -> (r: Vec<String>)
    ensures
        r@.map_values(|a: String| a@) == seq![
            "get"@,
            kind@,
            name@,
            "-n"@,
            namespace@,
            "-o"@,
            "json"@,
        ],
{
    let mut r: Vec<String> = Vec::new();
    r.push(String::from_str("get"));
    r.push(String::from_str(kind));
    r.push(String::from_str(name));
    r.push(String::from_str("-n"));
    r.push(String::from_str(namespace));
    r.push(String::from_str("-o"));
    r.push(String::from_str("json"));
    proof {
        assert(r@.map_values(|a: String| a@) =~= seq![
            "get"@,
            kind@,
            name@,
            "-n"@,
            namespace@,
            "-o"@,
            "json"@,
        ]);
    }
    r
}

/// The argument list that lists resources as JSON, with an optional
/// label selector.
pub fn list_args(resource: &str, namespace: &str, selector: &Option<String>) -> (r: Vec<String>)
    ensures
        r@.map_values(|a: String| a@) == seq!["get"@, resource@, "-n"@, namespace@]
            + (match selector {
            Option::Some(s) => seq!["-l"@, s@],
            Option::None => Seq::<Seq<char>>::empty(),
        }) + seq!["-o"@, "json"@],
{
    let mut r: Vec<String> = Vec::new();
    r.push(String::from_str("get"));
    r.push(String::from_str(resource));
    r.push(String::from_str("-n"));
    r.push(String::from_str(namespace));
    match selector {
        Some(s) => {
            r.push(String::from_str("-l"));
            r.push(s.clone());
        },
        None => {},
    }
    r.push(String::from_str("-o"));
    r.push(String::from_str("json"));
    proof {
        match selector {
            Option::Some(s) => {
                assert(r@.map_values(|a: String| a@) =~= seq!["get"@, resource@, "-n"@, namespace@]
                    + seq!["-l"@, s@] + seq!["-o"@, "json"@]);
            },
            Option::None => {
                assert(r@.map_values(|a: String| a@) =~= seq!["get"@, resource@, "-n"@, namespace@]
                    + Seq::<Seq<char>>::empty() + seq!["-o"@, "json"@]);
            },
        }
    }
    r
}

/// The argument list that names the known contexts.
pub fn contexts_args() -> (r: Vec<String>)
    ensures
        r@.map_values(|a: String| a@) == seq!["config"@, "get-contexts"@, "-o"@, "name"@],
{
    let mut r: Vec<String> = Vec::new();
    r.push(String::from_str("config"));
    r.push(String::from_str("get-contexts"));
    r.push(String::from_str("-o"));
    r.push(String::from_str("name"));
    proof {
        assert(r@.map_values(|a: String| a@) =~= seq![
            "config"@,
            "get-contexts"@,
            "-o"@,
            "name"@,
        ]);
    }
    r
}

/// The argument list that asks for a context's default namespace.
pub fn config_view_args(ctx: &str) -> (r: Vec<String>)
    ensures
        r@.map_values(|a: String| a@) == seq!["config"@, "view"@, "-o"@, spec_namespace_query(
            ctx@,
        )],
{
    let mut r: Vec<String> = Vec::new();
    r.push(String::from_str("config"));
    r.push(String::from_str("view"));
    r.push(String::from_str("-o"));
    r.push(context_namespace_query(ctx));
    proof {
        assert(r@.map_values(|a: String| a@) =~= seq!["config"@, "view"@, "-o"@,
            spec_namespace_query(ctx@)]);
    }
    r
}

} // verus!
