use sshpod::remote::{
    alloc_port, bootstrap_step, host_keys_script, lock_script, login_user_allowed,
    parse_port_output, sshd_command_args, start_sshd_script, BootstrapEvent, BootstrapState,
};

#[test]
fn lock_command() {
    assert_eq!(
        lock_script("/tmp/sshpod/u/c"),
        "umask 077; mkdir \"/tmp/sshpod/u/c/lock\""
    );
}

#[test]
fn root_allows_any_login() {
    assert!(login_user_allowed("0\n", "", "anyone").is_ok());
    assert!(login_user_allowed(" 0 ", "", "other").is_ok());
}

#[test]
fn non_root_requires_container_user() {
    assert!(login_user_allowed("1000\n", "appuser\n", "appuser").is_ok());
    let err = login_user_allowed("1000\n", "appuser\n", "root").unwrap_err();
    assert_eq!(
        err.message,
        "This Pod runs as non-root. Use the container user for login (requested: root, required: appuser)."
    );
}

#[test]
fn host_key_script_embeds_keys() {
    let s = host_keys_script("/base", "PRIVATE-KEY-BODY", "ssh-ed25519 AAAA host");
    assert!(s.starts_with("set -eu\nBASE=\"/base\"\n"));
    assert!(s.contains("<<'__SSH_PKEY__'\nPRIVATE-KEY-BODY\n__SSH_PKEY__\n"));
    assert!(s.contains("<<'__SSH_PUB__'\nssh-ed25519 AAAA host\n__SSH_PUB__\n"));
    assert!(s.contains("mv \"$TMP_PRIV\" \"$PRIV\""));
    assert!(s.contains("chmod 600 \"$PRIV\" \"$PUB\"\n"));
}

#[test]
fn sshd_script_contract_lines() {
    let s = start_sshd_script();
    assert!(s.starts_with("#!/bin/sh\nset -eu\n"));
    assert!(s.contains("grep -qxF \"$PUBKEY_LINE\" \"$BASE/authorized_keys\""));
    assert!(s.contains("echo $((20000 + (val % 45000)))"));
    assert!(s.contains("while [ $i -lt 30 ]"));
    assert!(s.contains("while [ $j -lt 10 ]"));
    assert!(s.contains("cat \"$BASE/sshd.port\" >&3"));
    assert!(s.contains("sshd did not start"));
    assert!(s.contains("PermitUserEnvironment yes"));
    assert!(s.contains("Subsystem sftp internal-sftp"));
}

#[test]
fn sshd_invocation_arguments() {
    assert_eq!(
        sshd_command_args("/base", "me", "ssh-ed25519 AAAA me"),
        vec!["sh", "-s", "--", "/base", "me", "ssh-ed25519 AAAA me"]
    );
}

#[test]
fn port_output_parsing() {
    assert_eq!(parse_port_output("31415\n").unwrap(), 31415);
    assert_eq!(parse_port_output("  22  ").unwrap(), 22);
    let err = parse_port_output("nonsense").unwrap_err();
    assert_eq!(err.message, "unexpected sshd port output: nonsense");
    assert!(parse_port_output("70000").is_err());
    assert!(parse_port_output("").is_err());
}

#[test]
fn port_allocation_range() {
    assert_eq!(alloc_port(0), 20000);
    assert_eq!(alloc_port(45000), 20000);
    assert_eq!(alloc_port(44999), 64999);
    let p = alloc_port(u16::MAX);
    assert!((20000..65000).contains(&p));
}

#[test]
fn bootstrap_reuses_live_server_without_launch() {
    let next = bootstrap_step(
        BootstrapState::Probe,
        BootstrapEvent::ProbeRunning { port: 31415 },
    );
    assert_eq!(next, BootstrapState::Reuse { port: 31415 });
}

#[test]
fn bootstrap_launch_poll_and_retry() {
    let s1 = bootstrap_step(BootstrapState::Probe, BootstrapEvent::ProbeNotRunning);
    assert_eq!(s1, BootstrapState::Allocate { attempt: 1 });
    let s2 = bootstrap_step(s1, BootstrapEvent::Launched { port: 23456 });
    assert_eq!(
        s2,
        BootstrapState::Poll {
            attempt: 1,
            port: 23456,
            tries: 0
        }
    );
    let ready = bootstrap_step(s2.clone(), BootstrapEvent::PidLive);
    assert_eq!(ready, BootstrapState::Ready { port: 23456 });

    let mut s = s2;
    for _ in 0..9 {
        s = bootstrap_step(s, BootstrapEvent::PidMissing);
    }
    assert_eq!(
        s,
        BootstrapState::Poll {
            attempt: 1,
            port: 23456,
            tries: 9
        }
    );
    let retry = bootstrap_step(s, BootstrapEvent::PidMissing);
    assert_eq!(retry, BootstrapState::Allocate { attempt: 2 });

    let last = BootstrapState::Poll {
        attempt: 30,
        port: 23456,
        tries: 9,
    };
    assert_eq!(
        bootstrap_step(last, BootstrapEvent::PidMissing),
        BootstrapState::GiveUp
    );
}
