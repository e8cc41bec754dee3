use std::io::{Read, Write};

use flate2::read::GzDecoder;
use xz2::write::XzEncoder;

use sshpod::bundle::{
    bundle_filename, bundle_fresh, bundle_version, candidate_paths, decompress_xz,
    ensure_plain_data, gzip_payload, install_failure_message, install_script_gz,
    install_script_plain, install_script_xz, install_step, map_machine_arch,
    missing_bundle_message, InstallEvent, InstallState,
};
use sshpod::embedded::get_bundle;

#[test]
fn decompress_smoke() {
    let mut encoder = XzEncoder::new(Vec::new(), 6);
    encoder.write_all(b"hello world").unwrap();
    let data = encoder.finish().unwrap();
    let out = decompress_xz(&data).expect("decompress");
    assert_eq!(out, b"hello world");
}

#[test]
fn ensure_plain_data_caches_decompression() {
    let mut encoder = XzEncoder::new(Vec::new(), 6);
    encoder.write_all(b"cache me").unwrap();
    let data = encoder.finish().unwrap();

    let mut cache = None;
    ensure_plain_data(&data, &mut cache).expect("first decode");
    let first = cache.as_ref().unwrap();
    assert_eq!(first, b"cache me");
    let first_ptr = first.as_ptr();

    ensure_plain_data(&data, &mut cache).expect("second decode");
    let second = cache.as_ref().unwrap();
    assert_eq!(second, b"cache me");
    assert_eq!(first_ptr, second.as_ptr(), "cache should be reused");
}

#[test]
fn gzip_payload_round_trip() {
    let gz = gzip_payload(b"ping").expect("gzip");
    let mut decoder = GzDecoder::new(&gz[..]);
    let mut out = String::new();
    decoder.read_to_string(&mut out).expect("gunzip");
    assert_eq!(out.as_bytes(), b"ping");
}

#[test]
fn gzip_payload_accepts_empty_input() {
    let gz = gzip_payload(b"").expect("gzip of empty bytes");
    let mut decoder = GzDecoder::new(&gz[..]);
    let mut out = Vec::new();
    decoder.read_to_end(&mut out).expect("gunzip");
    assert!(out.is_empty());
}

#[test]
fn decompress_rejects_garbage() {
    assert!(decompress_xz(b"not an xz stream").is_err());
    let mut cache = None;
    assert!(ensure_plain_data(b"not an xz stream", &mut cache).is_err());
    assert!(cache.is_none());
}

#[test]
fn arch_mapping() {
    assert_eq!(map_machine_arch("x86_64").unwrap(), "linux/amd64");
    assert_eq!(map_machine_arch("amd64\n").unwrap(), "linux/amd64");
    assert_eq!(map_machine_arch(" aarch64 ").unwrap(), "linux/arm64");
    assert_eq!(map_machine_arch("arm64").unwrap(), "linux/arm64");
    let err = map_machine_arch("mips\n").unwrap_err();
    assert_eq!(err.message, "unsupported remote architecture: mips");
}

#[test]
fn version_and_freshness() {
    assert_eq!(bundle_version("0.1.0"), "0.1.0+sshd1");
    let v = Some("0.1.0+sshd1".to_string());
    let a = Some("linux/amd64".to_string());
    assert!(bundle_fresh(&v, &a, "0.1.0+sshd1", "linux/amd64"));
    assert!(!bundle_fresh(&v, &a, "0.2.0+sshd1", "linux/amd64"));
    assert!(!bundle_fresh(&v, &None, "0.1.0+sshd1", "linux/amd64"));
    assert!(!bundle_fresh(&None, &a, "0.1.0+sshd1", "linux/amd64"));
}

#[test]
fn install_scripts_shape() {
    let base = "/tmp/sshpod/u1/c1";
    let meta = format!(
        "printf '%s\\n' \"{v}\" > \"{base}/bundle/VERSION\"; printf '%s\\n' \"{a}\" > \"{base}/bundle/ARCH\"; chmod 600 \"{base}/bundle/VERSION\" \"{base}/bundle/ARCH\";",
        v = "1+sshd1",
        a = "linux/amd64",
        base = base
    );
    let head = format!(
        "set -eu; umask 077; mkdir -p \"{base}/bundle\"; chmod 700 \"{base}\" \"{base}/bundle\"; ",
        base = base
    );
    assert_eq!(
        install_script_xz(base, "1+sshd1", "linux/amd64"),
        format!("{head}xz -dc > \"{base}/bundle/sshd\"; chmod 700 \"{base}/bundle/sshd\"; {meta}")
    );
    assert_eq!(
        install_script_gz(base, "1+sshd1", "linux/amd64"),
        format!(
            "{head}gzip -dc > \"{base}/bundle/sshd\"; chmod 700 \"{base}/bundle/sshd\"; {meta}"
        )
    );
    assert_eq!(
        install_script_plain(base, "1+sshd1", "linux/amd64"),
        format!("{head}cat > \"{base}/bundle/sshd\"; chmod 700 \"{base}/bundle/sshd\"; {meta}")
    );
}

#[test]
fn install_chain_failure_keeps_both_errors() {
    let s1 = install_step(
        InstallState::TryXz,
        InstallEvent::ToolMissing,
        "/tmp/sshpod/u/c",
    );
    assert_eq!(
        s1,
        InstallState::TryGzip {
            xz_err: "xz not available in container".to_string()
        }
    );
    let s2 = install_step(
        s1,
        InstallEvent::InstallFailed {
            error: "gzip exec blew up".to_string(),
        },
        "/tmp/sshpod/u/c",
    );
    assert_eq!(
        s2,
        InstallState::TryPlain {
            xz_err: "xz not available in container".to_string(),
            gzip_err: "gzip exec blew up".to_string(),
        }
    );
    let s3 = install_step(
        s2,
        InstallEvent::InstallFailed {
            error: "plain failed too".to_string(),
        },
        "/tmp/sshpod/u/c",
    );
    match s3 {
        InstallState::Failed { message } => {
            assert!(message.contains("xz not available in container"));
            assert!(message.contains("gzip exec blew up"));
            assert!(message.contains("plain failed too"));
            assert!(message.contains("/tmp/sshpod/u/c"));
        }
        other => panic!("expected a failure, got {:?}", other),
    }
}

#[test]
fn install_chain_success_paths() {
    assert_eq!(
        install_step(InstallState::TryXz, InstallEvent::InstallOk, "/b"),
        InstallState::Done
    );
    let g = InstallState::TryGzip {
        xz_err: "x".to_string(),
    };
    assert_eq!(
        install_step(g, InstallEvent::InstallOk, "/b"),
        InstallState::Done
    );
}

#[test]
fn failure_message_holds_both_errors() {
    let m = install_failure_message("/base", "xz says no", "gzip says no");
    assert_eq!(
        m,
        "failed to install bundle into /base (xz: xz says no; gzip: gzip says no)"
    );
}

#[test]
fn bundle_filenames() {
    assert_eq!(bundle_filename("linux/amd64"), "sshd_amd64.xz");
    assert_eq!(bundle_filename("linux/arm64"), "sshd_arm64.xz");
    assert_eq!(bundle_filename("linux/riscv64"), "sshd_linux_riscv64.xz");
}

#[test]
fn candidate_paths_order_and_dedup() {
    let dir = Some(".".to_string());
    let parent = Some("..".to_string());
    let paths = candidate_paths("sshd_amd64.xz", &dir, &parent);
    assert_eq!(
        paths,
        vec![
            "sshd_amd64.xz".to_string(),
            "bundles/sshd_amd64.xz".to_string(),
            "./sshd_amd64.xz".to_string(),
            "./bundles/sshd_amd64.xz".to_string(),
            "../bundles/sshd_amd64.xz".to_string(),
        ]
    );
    let no_dir = candidate_paths("f.xz", &None, &None);
    assert_eq!(no_dir, vec!["f.xz".to_string(), "bundles/f.xz".to_string()]);
    let dup = candidate_paths("f", &Some("bundles".to_string()), &None);
    assert_eq!(
        dup,
        vec![
            "f".to_string(),
            "bundles/f".to_string(),
            "bundles/bundles/f".to_string(),
        ]
    );
}

#[test]
fn missing_bundle_text() {
    assert_eq!(
        missing_bundle_message("sshd_amd64.xz"),
        "bundle file sshd_amd64.xz not found; place it alongside the binary or in ./bundles"
    );
}

#[test]
fn no_embedded_bundle() {
    assert!(get_bundle("linux/amd64").is_none());
    assert!(get_bundle("linux/arm64").is_none());
}
