//! Staging of the SSH-server bundle: architecture mapping, freshness
//! markers, the install scripts, the xz/gzip decompression calls, and
//! the fallback chain that tries xz, then gzip, then a plain copy.

use vstd::prelude::*;
use crate::strutil::{contains_seq, occurs_at, join_with, join_all, split_on, split_str, str_eq, trim_spec, trim_str};

verus! {

/// A staging failure, carried as a message.
#[derive(Debug, Clone)]
pub struct BundleError {
    pub message: String,
}

/// The architecture tag a machine name maps to.
pub open spec fn spec_arch_of(machine: Seq<char>) -> Option<Seq<char>> {
    let t = trim_spec(machine);
    if t == "x86_64"@ || t == "amd64"@ {
        Option::Some("linux/amd64"@)
    } else if t == "aarch64"@ || t == "arm64"@ {
        Option::Some("linux/arm64"@)
    } else {
        Option::None
    }
}

/// Maps the remote machine name (as `uname -m` reports it) to the
/// architecture tag, refusing unknown machines by name.
pub fn map_machine_arch(machine: &str) -> (r: Result<String, BundleError>)
    ensures
        match spec_arch_of(machine@) {
            Option::Some(a) => r is Ok && r->Ok_0@ == a,
            Option::None => r is Err && r->Err_0.message@ == "unsupported remote architecture: "@
                + trim_spec(machine@),
        },
{
    let t = trim_str(machine);
    if str_eq(t, "x86_64") || str_eq(t, "amd64") {
        Ok(String::from_str("linux/amd64"))
    } else if str_eq(t, "aarch64") || str_eq(t, "arm64") {
        Ok(String::from_str("linux/arm64"))
    } else {
        let mut m = String::from_str("unsupported remote architecture: ");
        m.append(t);
        Err(BundleError { message: m })
    }
}

/// The freshness signal stored beside the staged binary: the helper's
/// version and the bundle-format tag.
pub fn bundle_version(helper_version: &str) -> (r: String)
    ensures
        r@ == helper_version@ + "+sshd1"@,
{
    let mut r = String::from_str(helper_version);
    r.append("+sshd1");
    r
}

/// True iff the remote markers both match what this run expects, so the
/// staged bundle can be reused.
pub fn bundle_fresh(
    remote_version: &Option<String>,
    remote_arch: &Option<String>,
    version: &str,
    arch: &str,
) -> (r: bool)
    ensures
        r == (match (remote_version, remote_arch) {
            (Option::Some(v), Option::Some(a)) => v@ == version@ && a@ == arch@,
            _ => false,
        }),
{
    match (remote_version, remote_arch) {
        (Some(v), Some(a)) => str_eq(v.as_str(), version) && str_eq(a.as_str(), arch),
        _ => false,
    }
}

/// The script tail that writes the freshness markers.
pub open spec fn spec_meta_script(base: Seq<char>, version: Seq<char>, arch: Seq<char>)
    -> Seq<char> {
    "printf '%s\\n' \""@ + version + "\" > \""@ + base + "/bundle/VERSION\"; printf '%s\\n' \""@
        + arch + "\" > \""@ + base + "/bundle/ARCH\"; chmod 600 \""@ + base
        + "/bundle/VERSION\" \""@ + base + "/bundle/ARCH\";"@
}

/// The script head shared by every install path.
pub open spec fn spec_install_head(base: Seq<char>) -> Seq<char> {
    "set -eu; umask 077; mkdir -p \""@ + base + "/bundle\"; chmod 700 \""@ + base + "\" \""@
        + base + "/bundle\"; "@
}

/// The script body for one decompressor, ending in the marker writes.
pub open spec fn spec_install_script(base: Seq<char>, decomp: Seq<char>, version: Seq<char>,
    arch: Seq<char>) -> Seq<char> {
    spec_install_head(base) + decomp + " > \""@ + base + "/bundle/sshd\"; chmod 700 \""@ + base
        + "/bundle/sshd\"; "@ + spec_meta_script(base, version, arch)
}

/// Builds the install script around one decompressor command.
fn install_script(base: &str, decomp: &str, version: &str, arch: &str) -> (r: String)
    ensures
        r@ == spec_install_script(base@, decomp@, version@, arch@),
{
    let mut r = String::from_str("set -eu; umask 077; mkdir -p \"");
    r.append(base);
    r.append("/bundle\"; chmod 700 \"");
    r.append(base);
    r.append("\" \"");
    r.append(base);
    r.append("/bundle\"; ");
    r.append(decomp);
    r.append(" > \"");
    r.append(base);
    r.append("/bundle/sshd\"; chmod 700 \"");
    r.append(base);
    r.append("/bundle/sshd\"; ");
    r.append("printf '%s\\n' \"");
    r.append(version);
    r.append("\" > \"");
    r.append(base);
    r.append("/bundle/VERSION\"; printf '%s\\n' \"");
    r.append(arch);
    r.append("\" > \"");
    r.append(base);
    r.append("/bundle/ARCH\"; chmod 600 \"");
    r.append(base);
    r.append("/bundle/VERSION\" \"");
    r.append(base);
    r.append("/bundle/ARCH\";");
    r
}

/// The install script piping stdin through `xz -dc`.
pub fn install_script_xz(base: &str, version: &str, arch: &str) -> (r: String)
    ensures
        r@ == spec_install_script(base@, "xz -dc"@, version@, arch@),
{
    install_script(base, "xz -dc", version, arch)
}

/// The install script piping stdin through `gzip -dc`.
pub fn install_script_gz(base: &str, version: &str, arch: &str) -> (r: String)
    ensures
        r@ == spec_install_script(base@, "gzip -dc"@, version@, arch@),
{
    install_script(base, "gzip -dc", version, arch)
}

/// The install script writing stdin as it comes.
pub fn install_script_plain(base: &str, version: &str, arch: &str) -> (r: String)
    ensures
        r@ == spec_install_script(base@, "cat"@, version@, arch@),
{
    install_script(base, "cat", version, arch)
}

/// What xz decompression returns on given bytes, when it succeeds.
pub uninterp spec fn xz_plain(data: Seq<u8>) -> Option<Seq<u8>>;

/// Relies on xz2's XzDecoder over liblzma: decoding is a function of
/// the input bytes alone, and fails exactly on input it cannot decode.
#[verifier::external_body]
fn xz_decode_bytes(data: &[u8]) -> (r: Result<Vec<u8>, BundleError>)
    ensures
        r is Ok <==> xz_plain(data@) is Some,
        r is Ok ==> r->Ok_0@ == xz_plain(data@).unwrap(),
{
    let mut decoder = xz2::read::XzDecoder::new(data);
    let mut buf = Vec::new();
    match std::io::Read::read_to_end(&mut decoder, &mut buf) {
        Ok(_) => Ok(buf),
        Err(e) => Err(BundleError { message: e.to_string() }),
    }
}

/// Decompresses an xz stream; the result is `xz_plain` of the bytes.
pub fn decompress_xz(data: &[u8]) -> (r: Result<Vec<u8>, BundleError>)
    ensures
        r is Ok <==> xz_plain(data@) is Some,
        r is Ok ==> r->Ok_0@ == xz_plain(data@).unwrap(),
{
    xz_decode_bytes(data)
}

/// What gzip compression returns on given bytes.
pub uninterp spec fn gzip_of(data: Seq<u8>) -> Seq<u8>;

/// Relies on flate2's write::GzEncoder at the default level: with the
/// default builder the header is fixed (mtime 0, operating-system byte
/// 255), so the stream is a function of the input bytes alone. Encoding
/// succeeds on every input: the inner writer is a Vec, which accepts
/// every write, and the deflate compressor refuses no data.
#[verifier::external_body]
fn gzip_encode_bytes(data: &[u8]) -> (r: Result<Vec<u8>, BundleError>)
    ensures
        r is Ok,
        r->Ok_0@ == gzip_of(data@),
{
    let mut enc = flate2::write::GzEncoder::new(Vec::new(), flate2::Compression::default());
    if let Err(e) = std::io::Write::write_all(&mut enc, data) {
        return Err(BundleError { message: e.to_string() });
    }
    match enc.finish() {
        Ok(v) => Ok(v),
        Err(e) => Err(BundleError { message: e.to_string() }),
    }
}

/// Re-encodes bytes as a gzip stream: always `Ok`, and the result is
/// `gzip_of` the bytes.
pub fn gzip_payload(data: &[u8]) -> (r: Result<Vec<u8>, BundleError>)
    ensures
        r is Ok,
        r->Ok_0@ == gzip_of(data@),
{
    gzip_encode_bytes(data)
}

/// Fills the cache with the decompressed bundle on first need and then
/// leaves it alone: a second call returns the very same bytes.
pub fn ensure_plain_data(bundle_data: &[u8], cache: &mut Option<Vec<u8>>) -> (r: Result<
    (),
    BundleError,
>)
    ensures
        *old(cache) is Some ==> r is Ok && *final(cache) == *old(cache),
        *final(cache) is Some <==> r is Ok,
        *old(cache) is None ==> (r is Ok <==> xz_plain(bundle_data@) is Some),
        *old(cache) is None && r is Ok ==> final(cache).unwrap()@ == xz_plain(
            bundle_data@,
        ).unwrap(),
        r is Err ==> *final(cache) is None,
{
    if cache.is_none() {
        match decompress_xz(bundle_data) {
            Ok(v) => {
                *cache = Some(v);
            },
            Err(e) => {
                return Err(e);
            },
        }
    }
    Ok(())
}

/// The failure reported when every install path failed, keeping both
/// earlier errors in sight.
pub open spec fn spec_install_failure_message(base: Seq<char>, xz_err: Seq<char>,
    gzip_err: Seq<char>) -> Seq<char> {
    "failed to install bundle into "@ + base + " (xz: "@ + xz_err + "; gzip: "@ + gzip_err + ")"@
}

/// Composes the final install failure; it holds both prior attempt
/// errors word for word.
pub fn install_failure_message(base: &str, xz_err: &str, gzip_err: &str) -> (r: String)
    ensures
        r@ == spec_install_failure_message(base@, xz_err@, gzip_err@),
        contains_seq(r@, xz_err@),
        contains_seq(r@, gzip_err@),
{
    let mut r = String::from_str("failed to install bundle into ");
    r.append(base);
    r.append(" (xz: ");
    r.append(xz_err);
    r.append("; gzip: ");
    r.append(gzip_err);
    r.append(")");
    proof {
        let a = "failed to install bundle into "@;
        let b = " (xz: "@;
        let c = "; gzip: "@;
        let k = a.len() + base@.len() + b.len();
        assert(r@.subrange(k as int, (k + xz_err@.len()) as int) =~= xz_err@);
        assert(occurs_at(r@, xz_err@, k as int));
        let k2 = k + xz_err@.len() + c.len();
        assert(r@.subrange(k2 as int, (k2 + gzip_err@.len()) as int) =~= gzip_err@);
        assert(occurs_at(r@, gzip_err@, k2 as int));
    }
    r
}

/// Where the fallback chain stands.
#[derive(Debug, Clone, PartialEq, Eq)]
pub enum InstallState {
    TryXz,
    TryGzip { xz_err: String },
    TryPlain { xz_err: String, gzip_err: String },
    Done,
    Failed { message: String },
}

/// What the last attempt reported.
#[derive(Debug, Clone, PartialEq, Eq)]
pub enum InstallEvent {
    ToolMissing,
    InstallOk,
    InstallFailed { error: String },
    PrepareFailed { error: String },
}

/// One step of the fallback chain: xz, then gzip, then plain; the final
/// failure composes both earlier errors, and `Done` and `Failed` are
/// terminal.
pub fn install_step(state: InstallState, event: InstallEvent, base: &str) -> (r: InstallState)
    ensures
        match state {
            InstallState::TryXz => match event {
                InstallEvent::ToolMissing => r is TryGzip && r->TryGzip_xz_err@
                    == "xz not available in container"@,
                InstallEvent::InstallOk => r is Done,
                InstallEvent::InstallFailed { error } => r is TryGzip && r->TryGzip_xz_err@
                    == error@,
                InstallEvent::PrepareFailed { error } => r is TryGzip && r->TryGzip_xz_err@
                    == error@,
            },
            InstallState::TryGzip { xz_err } => match event {
                InstallEvent::ToolMissing => r is TryPlain && r->TryPlain_xz_err@ == xz_err@
                    && r->TryPlain_gzip_err@ == "gzip not available in container"@,
                InstallEvent::InstallOk => r is Done,
                InstallEvent::InstallFailed { error } => r is TryPlain && r->TryPlain_xz_err@
                    == xz_err@ && r->TryPlain_gzip_err@ == error@,
                InstallEvent::PrepareFailed { error } => r is TryPlain && r->TryPlain_xz_err@
                    == xz_err@ && r->TryPlain_gzip_err@ == error@,
            },
            InstallState::TryPlain { xz_err, gzip_err } => match event {
                InstallEvent::ToolMissing => r is TryPlain && r->TryPlain_xz_err@ == xz_err@
                    && r->TryPlain_gzip_err@ == gzip_err@,
                InstallEvent::InstallOk => r is Done,
                InstallEvent::InstallFailed { error } => r is Failed && r->Failed_message@
                    == spec_install_failure_message(base@, xz_err@, gzip_err@) + ": "@ + error@
                    && contains_seq(r->Failed_message@, xz_err@) && contains_seq(
                    r->Failed_message@,
                    gzip_err@,
                ),
                InstallEvent::PrepareFailed { error } => r is Failed && r->Failed_message@
                    == "failed to prepare sshd payload for plain install: "@ + error@,
            },
            InstallState::Done => r is Done,
            InstallState::Failed { message } => r is Failed && r->Failed_message@ == message@,
        },
{
    match state {
        InstallState::TryXz => match event {
            InstallEvent::ToolMissing => InstallState::TryGzip {
                xz_err: String::from_str("xz not available in container"),
            },
            InstallEvent::InstallOk => InstallState::Done,
            InstallEvent::InstallFailed { error } => InstallState::TryGzip { xz_err: error },
            InstallEvent::PrepareFailed { error } => InstallState::TryGzip { xz_err: error },
        },
        InstallState::TryGzip { xz_err } => match event {
            InstallEvent::ToolMissing => InstallState::TryPlain {
                xz_err,
                gzip_err: String::from_str("gzip not available in container"),
            },
            InstallEvent::InstallOk => InstallState::Done,
            InstallEvent::InstallFailed { error } => InstallState::TryPlain {
                xz_err,
                gzip_err: error,
            },
            InstallEvent::PrepareFailed { error } => InstallState::TryPlain {
                xz_err,
                gzip_err: error,
            },
        },
        InstallState::TryPlain { xz_err, gzip_err } => match event {
            InstallEvent::ToolMissing => InstallState::TryPlain { xz_err, gzip_err },
            InstallEvent::InstallOk => InstallState::Done,
            InstallEvent::InstallFailed { error } => {
                let mut m = install_failure_message(
                    base,
                    xz_err.as_str(),
                    gzip_err.as_str(),
                );
                m.append(": ");
                m.append(error.as_str());
                proof {
                    let fm = spec_install_failure_message(base@, xz_err@, gzip_err@);
                    let k = choose|i: int| occurs_at(fm, xz_err@, i);
                    assert(m@.subrange(k, k + xz_err@.len()) =~= xz_err@);
                    assert(occurs_at(m@, xz_err@, k));
                    let k2 = choose|i: int| occurs_at(fm, gzip_err@, i);
                    assert(m@.subrange(k2, k2 + gzip_err@.len()) =~= gzip_err@);
                    assert(occurs_at(m@, gzip_err@, k2));
                }
                InstallState::Failed { message: m }
            },
            InstallEvent::PrepareFailed { error } => {
                let mut m = String::from_str("failed to prepare sshd payload for plain install: ");
                m.append(error.as_str());
                InstallState::Failed { message: m }
            },
        },
        InstallState::Done => InstallState::Done,
        InstallState::Failed { message } => InstallState::Failed { message },
    }
}

/// The file name the bundle is sought under for an architecture tag.
pub open spec fn spec_bundle_filename(arch: Seq<char>) -> Seq<char> {
    if arch == "linux/amd64"@ {
        "sshd_amd64.xz"@
    } else if arch == "linux/arm64"@ {
        "sshd_arm64.xz"@
    } else {
        "sshd_"@ + join_with(split_on(arch, '/'), "_"@) + ".xz"@
    }
}

/// Names the bundle file for an architecture tag; an unknown tag has
/// every slash replaced by an underscore.
pub fn bundle_filename(arch: &str) -> (r: String)
    ensures
        r@ == spec_bundle_filename(arch@),
{
    if str_eq(arch, "linux/amd64") {
        String::from_str("sshd_amd64.xz")
    } else if str_eq(arch, "linux/arm64") {
        String::from_str("sshd_arm64.xz")
    } else {
        let parts = split_str(arch, '/');
        let mut r = String::from_str("sshd_");
        r.append(join_all(&parts, "_").as_str());
        r.append(".xz");
        r
    }
}

/// The search list for a bundle file, first occurrence of each path
/// kept: the working directory, `bundles/`, the helper binary's
/// directory, its `bundles/`, and the `bundles/` one level above.
pub open spec fn spec_candidate_paths(
    filename: Seq<char>,
    exe_dir: Option<Seq<char>>,
    exe_parent: Option<Seq<char>>,
) -> Seq<Seq<char>> {
    let head = seq![filename, "bundles/"@ + filename];
    let mid = match exe_dir {
        Option::Some(d) => seq![d + "/"@ + filename, d + "/bundles/"@ + filename],
        Option::None => Seq::empty(),
    };
    let tail = match exe_parent {
        Option::Some(p) => seq![p + "/bundles/"@ + filename],
        Option::None => Seq::empty(),
    };
    dedup_first(head + mid + tail)
}

/// Keeps the first occurrence of each element.
pub open spec fn dedup_first(xs: Seq<Seq<char>>) -> Seq<Seq<char>>
    decreases xs.len(),
{
    if xs.len() == 0 {
        Seq::empty()
    } else {
        let r = dedup_first(xs.drop_last());
        if r.contains(xs.last()) {
            r
        } else {
            r.push(xs.last())
        }
    }
}

/// Builds the bundle search list, as `spec_candidate_paths` says.
pub fn candidate_paths(
    filename: &str,
    exe_dir: &Option<String>,
    exe_parent: &Option<String>,
) -> (r: Vec<String>)
    ensures
        r@.map_values(|p: String| p@) == spec_candidate_paths(
            filename@,
            match exe_dir {
                Option::Some(d) => Option::Some(d@),
                Option::None => Option::None,
            },
            match exe_parent {
                Option::Some(p) => Option::Some(p@),
                Option::None => Option::None,
            },
        ),
{
    let mut raw: Vec<String> = Vec::new();
    raw.push(String::from_str(filename));
    let mut p1 = String::from_str("bundles/");
    p1.append(filename);
    raw.push(p1);
    match exe_dir {
        Some(d) => {
            let mut p2 = String::from_str(d.as_str());
            p2.append("/");
            p2.append(filename);
            raw.push(p2);
            let mut p3 = String::from_str(d.as_str());
            p3.append("/bundles/");
            p3.append(filename);
            raw.push(p3);
        },
        None => {},
    }
    match exe_parent {
        Some(p) => {
            let mut p4 = String::from_str(p.as_str());
            p4.append("/bundles/");
            p4.append(filename);
            raw.push(p4);
        },
        None => {},
    }
    let ghost rawv = raw@.map_values(|p: String| p@);
    proof {
        let head = seq![filename@, "bundles/"@ + filename@];
        let mid = match exe_dir {
            Option::Some(d) => seq![d@ + "/"@ + filename@, d@ + "/bundles/"@ + filename@],
            Option::None => Seq::<Seq<char>>::empty(),
        };
        let tail = match exe_parent {
            Option::Some(p) => seq![p@ + "/bundles/"@ + filename@],
            Option::None => Seq::<Seq<char>>::empty(),
        };
        assert(rawv =~= head + mid + tail);
    }
    let mut r: Vec<String> = Vec::new();
    let mut i: usize = 0;
    while i < raw.len()
        invariant
            i <= raw@.len(),
            rawv == raw@.map_values(|p: String| p@),
            r@.map_values(|p: String| p@) == dedup_first(rawv.subrange(0, i as int)),
        decreases raw@.len() - i,
    {
        let cand = &raw[i];
        let mut seen: bool = false;
        let mut j: usize = 0;
        while j < r.len()
            invariant
                j <= r@.len(),
                seen == exists|k: int| 0 <= k < j && r@[k]@ == cand@,
            decreases r@.len() - j,
        {
            if str_eq(r[j].as_str(), cand.as_str()) {
                seen = true;
            }
            j += 1;
        }
        let ghost prefix = rawv.subrange(0, i as int);
        let ghost dr = dedup_first(prefix);
        proof {
            assert(rawv.subrange(0, i + 1).drop_last() =~= prefix);
            assert(rawv.subrange(0, i + 1).last() == rawv[i as int]);
            if seen {
                let k = choose|k: int| 0 <= k < r@.len() && r@[k]@ == cand@;
                assert(dr[k] == cand@);
                assert(dr.contains(cand@));
            } else {
                if dr.contains(cand@) {
                    let k = choose|k: int| 0 <= k < dr.len() && dr[k] == cand@;
                    assert(r@[k]@ == cand@);
                }
            }
        }
        if !seen {
            let ghost m0 = r@.map_values(|p: String| p@);
            r.push(cand.clone());
            proof {
                assert(r@.map_values(|p: String| p@) =~= m0.push(cand@));
            }
        }
        i += 1;
    }
    proof {
        assert(rawv.subrange(0, rawv.len() as int) =~= rawv);
    }
    r
}

/// The failure reported when no bundle file is on disk.
pub fn missing_bundle_message(filename: &str) -> (r: String)
    ensures
        r@ == "bundle file "@ + filename@
            + " not found; place it alongside the binary or in ./bundles"@,
{
    let mut r = String::from_str("bundle file ");
    r.append(filename);
    r.append(" not found; place it alongside the binary or in ./bundles");
    r
}

} // verus!
