use sshpod::kubectl::{
    append_ready_list, config_view_args, contexts_args, context_namespace_query,
    deployment_is_ready, ensure_context_exists, exec_args, get_object_args, is_ready, is_running,
    job_is_ready, job_selector, list_args, parse_context_list, parse_optional_namespace,
    select_pod, to_selector, DeploymentStatus, JobStatus, LabelSelector, MatchExpression,
    PodCondition, PodListItem, PodStatus,
};

fn pod(name: &str, phase: Option<&str>, ready: bool) -> PodListItem {
    PodListItem {
        name: name.to_string(),
        status: phase.map(|p| PodStatus {
            phase: Some(p.to_string()),
            conditions: if ready {
                Some(vec![PodCondition {
                    cond_type: "Ready".to_string(),
                    status: "True".to_string(),
                }])
            } else {
                None
            },
        }),
    }
}

#[test]
fn test_is_ready_true() {
    let pod = PodListItem {
        name: "p".into(),
        status: Some(PodStatus {
            phase: Some("Running".into()),
            conditions: Some(vec![PodCondition {
                cond_type: "Ready".into(),
                status: "True".into(),
            }]),
        }),
    };
    assert!(is_ready(&pod));
}

#[test]
fn test_is_ready_false_when_not_running() {
    let pod = PodListItem {
        name: "p".into(),
        status: Some(PodStatus {
            phase: Some("Pending".into()),
            conditions: None,
        }),
    };
    assert!(!is_ready(&pod));
}

#[test]
fn running_without_ready_condition() {
    let p = pod("p", Some("Running"), false);
    assert!(is_running(&p));
    assert!(!is_ready(&p));
    assert!(!is_running(&pod("q", None, false)));
}

#[test]
fn select_pod_prefers_ready() {
    let items = vec![pod("first", Some("Pending"), false), pod("second", Some("Running"), true)];
    assert_eq!(select_pod(&items, "deployment", "a=b", "ns").unwrap(), "second");

    let only = vec![pod("first", Some("Pending"), false)];
    assert_eq!(select_pod(&only, "deployment", "a=b", "ns").unwrap(), "first");

    let running = vec![pod("first", Some("Pending"), false), pod("mid", Some("Running"), false)];
    assert_eq!(select_pod(&running, "job", "x=y", "ns").unwrap(), "mid");

    let empty: Vec<PodListItem> = Vec::new();
    let err = select_pod(&empty, "deployment", "a=b", "ns").unwrap_err();
    assert_eq!(
        err.message,
        "no pods found for deployment selector `a=b` in namespace ns"
    );
}

#[test]
fn selector_label_order_is_kept() {
    let one = LabelSelector {
        match_labels: vec![("a".into(), "b".into()), ("c".into(), "d".into())],
        match_expressions: vec![],
    };
    let two = LabelSelector {
        match_labels: vec![("c".into(), "d".into()), ("a".into(), "b".into())],
        match_expressions: vec![],
    };
    let r1 = to_selector(&one).unwrap();
    let r2 = to_selector(&two).unwrap();
    assert_eq!(r1, "a=b,c=d");
    assert_eq!(r2, "c=d,a=b");
    let both = ["a=b,c=d", "c=d,a=b"];
    assert!(both.contains(&r1.as_str()));
    assert!(both.contains(&r2.as_str()));
}

#[test]
fn selector_expressions() {
    let sel = LabelSelector {
        match_labels: vec![("app".into(), "web".into())],
        match_expressions: vec![
            MatchExpression {
                key: "tier".into(),
                operator: "In".into(),
                values: vec!["a".into(), "b".into()],
            },
            MatchExpression {
                key: "env".into(),
                operator: "NotIn".into(),
                values: vec!["dev".into()],
            },
            MatchExpression {
                key: "gpu".into(),
                operator: "Exists".into(),
                values: vec![],
            },
            MatchExpression {
                key: "legacy".into(),
                operator: "DoesNotExist".into(),
                values: vec![],
            },
        ],
    };
    assert_eq!(
        to_selector(&sel).unwrap(),
        "app=web,tier in (a,b),env notin (dev),gpu,!legacy"
    );
}

#[test]
fn selector_refusals() {
    let empty_in = LabelSelector {
        match_labels: vec![],
        match_expressions: vec![MatchExpression {
            key: "k".into(),
            operator: "In".into(),
            values: vec![],
        }],
    };
    assert_eq!(
        to_selector(&empty_in).unwrap_err().message,
        "matchExpressions In requires values"
    );

    let empty_notin = LabelSelector {
        match_labels: vec![],
        match_expressions: vec![MatchExpression {
            key: "k".into(),
            operator: "NotIn".into(),
            values: vec![],
        }],
    };
    assert_eq!(
        to_selector(&empty_notin).unwrap_err().message,
        "matchExpressions NotIn requires values"
    );

    let bad_op = LabelSelector {
        match_labels: vec![("a".into(), "b".into())],
        match_expressions: vec![MatchExpression {
            key: "k".into(),
            operator: "Near".into(),
            values: vec![],
        }],
    };
    assert_eq!(
        to_selector(&bad_op).unwrap_err().message,
        "unsupported matchExpression operator: Near"
    );

    let empty = LabelSelector {
        match_labels: vec![],
        match_expressions: vec![],
    };
    assert_eq!(to_selector(&empty).unwrap_err().message, "label selector is empty");
}

#[test]
fn job_selector_fallbacks() {
    let own = Some(LabelSelector {
        match_labels: vec![("job".into(), "j1".into())],
        match_expressions: vec![],
    });
    assert_eq!(job_selector(&own, &None, "j1").unwrap(), "job=j1");

    let labels = Some(vec![("a".into(), "b".into())]);
    assert_eq!(job_selector(&None, &labels, "j1").unwrap(), "a=b");

    let empty_labels: Option<Vec<(String, String)>> = Some(vec![]);
    assert_eq!(job_selector(&None, &empty_labels, "j1").unwrap(), "job-name=j1");
    assert_eq!(job_selector(&None, &None, "j2").unwrap(), "job-name=j2");
}

#[test]
fn context_checks() {
    let contexts = vec!["dev".to_string(), "prod".to_string()];
    assert!(ensure_context_exists(&contexts, "dev").is_ok());
    let err = ensure_context_exists(&contexts, "stage").unwrap_err();
    assert_eq!(
        err.message,
        "context `stage` not found. Available contexts: dev, prod"
    );
}

#[test]
fn context_list_parsing() {
    let out = " dev \nprod\n\n  \nstage";
    assert_eq!(parse_context_list(out), vec!["dev", "prod", "stage"]);
    assert!(parse_context_list("").is_empty());
}

#[test]
fn namespace_query_and_parse() {
    assert_eq!(
        context_namespace_query("c1"),
        "jsonpath={.contexts[?(@.name==\"c1\")].context.namespace}"
    );
    assert_eq!(parse_optional_namespace("  team-a \n"), Some("team-a".to_string()));
    assert_eq!(parse_optional_namespace("  \n"), None);
}

#[test]
fn readiness_predicates() {
    assert!(deployment_is_ready(&Some(DeploymentStatus {
        available_replicas: Some(0),
        ready_replicas: Some(1),
    })));
    assert!(!deployment_is_ready(&Some(DeploymentStatus {
        available_replicas: Some(0),
        ready_replicas: None,
    })));
    assert!(!deployment_is_ready(&None));

    assert!(job_is_ready(&Some(JobStatus {
        succeeded: Some(1),
        active: None,
        ready: None,
    })));
    assert!(job_is_ready(&Some(JobStatus {
        succeeded: None,
        active: Some(2),
        ready: None,
    })));
    assert!(!job_is_ready(&Some(JobStatus {
        succeeded: Some(0),
        active: Some(0),
        ready: Some(0),
    })));
    assert!(!job_is_ready(&None));
}

#[test]
fn ready_list_suffix() {
    let names = vec!["a".to_string(), "b".to_string()];
    assert_eq!(
        append_ready_list("boom.", "deployment", &names),
        "boom. Ready deployments: a, b"
    );
    assert_eq!(append_ready_list("boom.", "pod", &Vec::new()), "boom.");
}

#[test]
fn argument_lists() {
    let ctx = Some("c1".to_string());
    assert_eq!(
        exec_args(&ctx, "ns", "pod1", "main", true),
        vec!["--context", "c1", "exec", "-i", "-n", "ns", "pod1", "-c", "main", "--"]
    );
    assert_eq!(
        exec_args(&None, "ns", "pod1", "main", false),
        vec!["exec", "-n", "ns", "pod1", "-c", "main", "--"]
    );
    assert_eq!(
        get_object_args("deployment", "web", "ns"),
        vec!["get", "deployment", "web", "-n", "ns", "-o", "json"]
    );
    assert_eq!(
        list_args("pods", "ns", &Some("a=b".to_string())),
        vec!["get", "pods", "-n", "ns", "-l", "a=b", "-o", "json"]
    );
    assert_eq!(
        list_args("jobs", "ns", &None),
        vec!["get", "jobs", "-n", "ns", "-o", "json"]
    );
    assert_eq!(contexts_args(), vec!["config", "get-contexts", "-o", "name"]);
    assert_eq!(
        config_view_args("c1"),
        vec![
            "config",
            "view",
            "-o",
            "jsonpath={.contexts[?(@.name==\"c1\")].context.namespace}"
        ]
    );
}
