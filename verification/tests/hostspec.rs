use sshpod::hostspec::{parse, parse_target, HostSpecError, Target};

#[test]
fn reject_missing_suffix() {
    let err = parse("pod--app.context--ctx").unwrap_err();
    assert!(matches!(err, HostSpecError::MissingSuffix));
}

#[test]
fn reject_duplicate_tokens() {
    assert!(parse("pod--a.pod--b.context--ctx.sshpod").is_err());
    assert!(parse("namespace--n.namespace--m.pod--a.context--ctx.sshpod").is_err());
    assert!(parse("container--x.container--y.pod--a.context--ctx.sshpod").is_err());
    assert!(parse("context--a.context--b.pod--a.sshpod").is_err());
}

#[test]
fn reject_unknown_prefix() {
    assert!(parse("foo--bar.pod--a.context--ctx.sshpod").is_err());
}

#[test]
fn reject_missing_separator_segment() {
    let err = parse("deployment--ws.context-pfcp-pfn-yh1-01.sshpod").unwrap_err();
    assert!(matches!(
        err,
        HostSpecError::MissingSeparator { ref segment }
            if segment == "context-pfcp-pfn-yh1-01"
    ));
}

#[test]
fn dot_collapse_handling() {
    // Leading empty segment plus empty pod token should still be rejected
    assert!(parse(".pod--.context--ctx.sshpod").is_err());
    // Extra dots are ignored by the parser; this should parse like a single-dot variant
    let spec = parse("pod--app..context--ctx.sshpod").expect("double dots should parse");
    assert_eq!(spec.target, Target::Pod("app".into()));
    assert_eq!(spec.context.as_deref(), Some("ctx"));
}

#[test]
fn round_trip_common_patterns() {
    let cases = [
        ("pod--a.context--c.sshpod", ("a", Some("c"), None, None)),
        (
            "pod--a.namespace--n.context--c.sshpod",
            ("a", Some("c"), Some("n"), None),
        ),
        (
            "deployment--d.namespace--n.context--c.sshpod",
            ("d", Some("c"), Some("n"), None),
        ),
        ("job--j.context--c.sshpod", ("j", Some("c"), None, None)),
        (
            "container--x.pod--a.namespace--n.context--c.sshpod",
            ("a", Some("c"), Some("n"), Some("x")),
        ),
        (
            "pod--app.namespace--ns.sshpod",
            ("app", None, Some("ns"), None),
        ),
    ];
    for (input, (name, ctx, ns, container)) in cases {
        let spec = parse(input).expect("should parse");
        match &spec.target {
            Target::Pod(p) | Target::Deployment(p) | Target::Job(p) => assert_eq!(p, name),
        }
        assert_eq!(spec.context.as_deref(), ctx);
        assert_eq!(spec.namespace.as_deref(), ns);
        assert_eq!(spec.container.as_deref(), container);
    }
}

#[test]
fn trailing_dots_are_stripped() {
    let spec = parse("pod--app.namespace--ns.sshpod..").expect("trailing dots are harmless");
    assert_eq!(spec.target, Target::Pod("app".into()));
    assert_eq!(spec.namespace.as_deref(), Some("ns"));
}

#[test]
fn reject_empty_prefix_bodies() {
    assert!(parse("container--.pod--a.sshpod").is_err());
    assert!(parse("namespace--.pod--a.sshpod").is_err());
    assert!(parse("deployment--.sshpod").is_err());
}

#[test]
fn reject_missing_target() {
    assert!(parse("namespace--n.context--c.sshpod").is_err());
    assert!(parse(".sshpod").is_err());
}

#[test]
fn error_messages() {
    assert_eq!(
        parse("pod--app.context--ctx").unwrap_err().message(),
        "hostname must end with .sshpod"
    );
    assert_eq!(
        parse("deployment--ws.context-pfcp-pfn-yh1-01.sshpod")
            .unwrap_err()
            .message(),
        "hostname segment 'context-pfcp-pfn-yh1-01' is missing \"--\""
    );
    assert_eq!(
        parse("pod--a.pod--b.context--ctx.sshpod").unwrap_err().message(),
        "hostname must include one of pod--/deployment--/job-- (container-- optional, namespace-- optional, context-- optional), ending with .sshpod"
    );
}

#[test]
fn parse_target_variants() {
    assert_eq!(parse_target("pod--x").unwrap(), Target::Pod("x".into()));
    assert_eq!(
        parse_target("deployment--y").unwrap(),
        Target::Deployment("y".into())
    );
    assert_eq!(parse_target("job--z").unwrap(), Target::Job("z".into()));
    assert!(parse_target("pod--").is_err());
    assert!(parse_target("").is_err());
    assert!(parse_target("other--x").is_err());
}
