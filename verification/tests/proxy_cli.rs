use sshpod::cli::no_command_message;
use sshpod::keys::{cache_dir, key_paths, keygen_args};
use sshpod::numfmt::{parse_u16, u16_to_string};
use sshpod::port_forward::{parse_port, port_forward_args};
use sshpod::proxy::{base_dir, resolve_container, resolve_login_user, resolve_namespace};

#[test]
fn login_user_resolution() {
    assert_eq!(resolve_login_user(&Some("alice".to_string()), "bob"), "alice");
    assert_eq!(resolve_login_user(&Some(String::new()), "bob"), "bob");
    assert_eq!(resolve_login_user(&None, "bob"), "bob");
}

#[test]
fn namespace_resolution() {
    assert_eq!(
        resolve_namespace(&Some("ns1".to_string()), &Some("def".to_string())),
        "ns1"
    );
    assert_eq!(resolve_namespace(&None, &Some("def".to_string())), "def");
    assert_eq!(resolve_namespace(&None, &None), "");
}

#[test]
fn container_resolution() {
    let containers = vec!["main".to_string(), "sidecar".to_string()];
    assert_eq!(
        resolve_container(&Some("sidecar".to_string()), &containers, "pod1").unwrap(),
        "sidecar"
    );
    let err = resolve_container(&Some("absent".to_string()), &containers, "pod1").unwrap_err();
    assert_eq!(err.message, "container `absent` not found in pod pod1");

    let single = vec!["only".to_string()];
    assert_eq!(resolve_container(&None, &single, "pod1").unwrap(), "only");
    let err = resolve_container(&None, &containers, "pod1").unwrap_err();
    assert!(err.message.contains("multiple containers"));
    assert!(err.message.contains("container--<container>"));
}

#[test]
fn staging_base_directory() {
    assert_eq!(base_dir("uid-123", "main"), "/tmp/sshpod/uid-123/main");
}

#[test]
fn key_cache_layout() {
    assert_eq!(cache_dir("/home/me"), "/home/me/.cache/sshpod");
    let (private, public) = key_paths("/home/me/.cache/sshpod", "id_ed25519");
    assert_eq!(private, "/home/me/.cache/sshpod/id_ed25519");
    assert_eq!(public, "/home/me/.cache/sshpod/id_ed25519.pub");
    let (hk, hkp) = key_paths("/home/me/.cache/sshpod", "ssh_host_ed25519_key");
    assert_eq!(hk, "/home/me/.cache/sshpod/ssh_host_ed25519_key");
    assert_eq!(hkp, "/home/me/.cache/sshpod/ssh_host_ed25519_key.pub");
}

#[test]
fn keygen_arguments() {
    assert_eq!(
        keygen_args("/home/me/.cache/sshpod/id_ed25519"),
        vec!["-q", "-t", "ed25519", "-f", "/home/me/.cache/sshpod/id_ed25519", "-N", ""]
    );
}

#[test]
fn decimal_round_trips() {
    assert_eq!(u16_to_string(0), "0");
    assert_eq!(u16_to_string(31415), "31415");
    assert_eq!(u16_to_string(65535), "65535");
    assert_eq!(parse_u16("31415"), Some(31415));
    assert_eq!(parse_u16("0031415"), Some(31415));
    assert_eq!(parse_u16("65536"), None);
    assert_eq!(parse_u16(""), None);
    assert_eq!(parse_u16("12a"), None);
}

#[test]
fn port_forward_announcement() {
    assert_eq!(
        parse_port("Forwarding from 127.0.0.1:39217 -> 30022"),
        Some(39217)
    );
    assert_eq!(parse_port("Forwarding from [::1]:39217 -> 30022"), Some(39217));
    assert_eq!(parse_port("some other line 1:2"), None);
    assert_eq!(parse_port("Forwarding from nothing here"), None);
}

#[test]
fn port_forward_arguments() {
    assert_eq!(
        port_forward_args(&Some("c1".to_string()), "ns", "pod1", 30022),
        vec![
            "--context",
            "c1",
            "port-forward",
            "--address",
            "localhost",
            "-n",
            "ns",
            "pod/pod1",
            ":30022"
        ]
    );
    assert_eq!(
        port_forward_args(&None, "ns", "pod1", 22),
        vec!["port-forward", "--address", "localhost", "-n", "ns", "pod/pod1", ":22"]
    );
}

#[test]
fn missing_command_message() {
    assert_eq!(
        no_command_message(),
        "no command provided. Use the configure or proxy subcommands."
    );
}
