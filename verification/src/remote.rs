//! Remote bootstrap: the advisory lock, the identity check, the
//! host-key install script, the server-start script, and the state
//! machine the server bootstrap follows.

use vstd::prelude::*;
use crate::strutil::trim_spec;
use crate::strutil::trim_str;
use crate::numfmt::spec_parse_u16;
use crate::numfmt::parse_u16;

verus! {

/// A bootstrap failure, carried as a message.
#[derive(Debug, Clone)]
pub struct RemoteError {
    pub message: String,
}

/// The advisory-lock command: a best-effort `mkdir` of the lock
/// directory under a tight umask.
pub fn lock_script(base: &str) -> (r: String)
    ensures
        r@ == "umask 077; mkdir \""@ + base@ + "/lock\""@,
{
    let mut r = String::from_str("umask 077; mkdir \"");
    r.append(base);
    r.append("/lock\"");
    r
}

/// The refusal when the container user does not match the requested
/// login.
pub open spec fn spec_identity_message(login_user: Seq<char>, remote_user: Seq<char>)
    -> Seq<char> {
    "This Pod runs as non-root. Use the container user for login (requested: "@ + login_user
        + ", required: "@ + remote_user + ")."@
}

/// Decides whether the requested login may be used: any login is
/// allowed when the container runs as root, else the container's own
/// user is required, exactly.
pub fn login_user_allowed(uid_output: &str, remote_user_output: &str, login_user: &str) -> (r:
    Result<(), RemoteError>)
    ensures
        trim_spec(uid_output@) == "0"@ ==> r is Ok,
        trim_spec(uid_output@) != "0"@ ==> (r is Ok <==> trim_spec(remote_user_output@)
            == login_user@),
        r is Err ==> r->Err_0.message@ == spec_identity_message(
            login_user@,
            trim_spec(remote_user_output@),
        ),
{
    if crate::strutil::str_eq(trim_str(uid_output), "0") {
        return Ok(());
    }
    let remote_user = trim_str(remote_user_output);
    if crate::strutil::str_eq(remote_user, login_user) {
        return Ok(());
    }
    let mut m = String::from_str(
        "This Pod runs as non-root. Use the container user for login (requested: ",
    );
    m.append(login_user);
    m.append(", required: ");
    m.append(remote_user);
    m.append(").");
    Err(RemoteError { message: m })
}

/// The host-key install script: write both keys to temporaries, keep
/// the old files when they already match, else rename the temporaries
/// into place with mode 600.
pub open spec fn spec_host_keys_script(base: Seq<char>, private: Seq<char>, public: Seq<char>)
    -> Seq<char> {
    "set -eu\nBASE=\""@ + base
        + "\"\nPRIV=\"$BASE/hostkeys/ssh_host_ed25519_key\"\nPUB=\"$BASE/hostkeys/ssh_host_ed25519_key.pub\"\nTMP_PRIV=\"$BASE/hostkeys/.tmp_priv\"\nTMP_PUB=\"$BASE/hostkeys/.tmp_pub\"\numask 077\nmkdir -p \"$BASE\" \"$BASE/hostkeys\" \"$BASE/logs\"\nchmod 700 \"$BASE\" \"$BASE/hostkeys\"\ncat > \"$TMP_PRIV\" <<'__SSH_PKEY__'\n"@
        + private
        + "\n__SSH_PKEY__\ncat > \"$TMP_PUB\" <<'__SSH_PUB__'\n"@
        + public
        + "\n__SSH_PUB__\nif [ -f \"$PRIV\" ] && [ -f \"$PUB\" ] && cmp -s \"$PRIV\" \"$TMP_PRIV\" && cmp -s \"$PUB\" \"$TMP_PUB\"; then\n  rm -f \"$TMP_PRIV\" \"$TMP_PUB\"\n  exit 0\nfi\nmv \"$TMP_PRIV\" \"$PRIV\"\nmv \"$TMP_PUB\" \"$PUB\"\nchmod 600 \"$PRIV\" \"$PUB\"\n"@
}

/// Builds the host-key install script.
pub fn host_keys_script(base: &str, private: &str, public: &str) -> (r: String)
    ensures
        r@ == spec_host_keys_script(base@, private@, public@),
{
    let mut r = String::from_str("set -eu\nBASE=\"");
    r.append(base);
    r.append(
        "\"\nPRIV=\"$BASE/hostkeys/ssh_host_ed25519_key\"\nPUB=\"$BASE/hostkeys/ssh_host_ed25519_key.pub\"\nTMP_PRIV=\"$BASE/hostkeys/.tmp_priv\"\nTMP_PUB=\"$BASE/hostkeys/.tmp_pub\"\numask 077\nmkdir -p \"$BASE\" \"$BASE/hostkeys\" \"$BASE/logs\"\nchmod 700 \"$BASE\" \"$BASE/hostkeys\"\ncat > \"$TMP_PRIV\" <<'__SSH_PKEY__'\n",
    );
    r.append(private);
    r.append("\n__SSH_PKEY__\ncat > \"$TMP_PUB\" <<'__SSH_PUB__'\n");
    r.append(public);
    r.append(
        "\n__SSH_PUB__\nif [ -f \"$PRIV\" ] && [ -f \"$PUB\" ] && cmp -s \"$PRIV\" \"$TMP_PRIV\" && cmp -s \"$PUB\" \"$TMP_PUB\"; then\n  rm -f \"$TMP_PRIV\" \"$TMP_PUB\"\n  exit 0\nfi\nmv \"$TMP_PRIV\" \"$PRIV\"\nmv \"$TMP_PUB\" \"$PUB\"\nchmod 600 \"$PRIV\" \"$PUB\"\n",
    );
    r
}

/// The server-start script fed to `sh -s -- <base> <login> <pubkey>`:
/// it prepares the base directory, installs the public key with
/// set-semantics, reuses a live server, else launches one on a random
/// loopback port and reports the port on file descriptor 3.
pub fn start_sshd_script() -> (r: String)
    ensures
        r@ == "#!/bin/sh\nset -eu\n\nBASE=\"$1\"\nLOGIN_USER=\"$2\"\nPUBKEY_LINE=\"$3\"\nSSHD=\"$BASE/bundle/sshd\"\nENV_FILE=\"$BASE/environment\"\n\nexec 3>&1\nexec 1>&2\n\ndebug_log() {\n  printf '[sshpod] %s\\n' \"$1\" >&2\n}\n\numask 077\nmkdir -p \"$BASE\" \"$BASE/logs\" \"$BASE/hostkeys\"\nchmod 700 \"$BASE\" \"$BASE/hostkeys\" \"$BASE/logs\"\nBASE_PARENT=\"$(dirname \"$BASE\")\"\nTOP_DIR=\"$(dirname \"$BASE_PARENT\")\"\nchmod 711 \"$TOP_DIR\" \"$BASE_PARENT\"\ndebug_log \"start script begin (base=$BASE user=$LOGIN_USER)\"\n\nget_home() {\n  if command -v getent >/dev/null 2>&1; then\n    getent passwd \"$1\" | awk -F: '{print $6}'\n  elif [ -f /etc/passwd ]; then\n    awk -F: -v u=\"$1\" '$1==u {print $6}' /etc/passwd | head -n1\n  fi\n}\n\nhave_user() {\n  if command -v getent >/dev/null 2>&1; then\n    getent passwd \"$1\"\n  elif [ -f /etc/passwd ]; then\n    awk -F: -v u=\"$1\" '$1==u {found=1} END{exit found?0:1}' /etc/passwd\n  else\n    return 1\n  fi\n}\n\nif [ ! -f \"$BASE/authorized_keys\" ]; then\n  : > \"$BASE/authorized_keys\"\nfi\ngrep -qxF \"$PUBKEY_LINE\" \"$BASE/authorized_keys\" || printf '%s\\n' \"$PUBKEY_LINE\" >> \"$BASE/authorized_keys\"\nchmod 600 \"$BASE/authorized_keys\"\nif [ -n \"$LOGIN_USER\" ]; then\n  chown \"$LOGIN_USER\":\"$LOGIN_USER\" \"$BASE\" \"$BASE/authorized_keys\" || true\nfi\n\nmkdir -p /tmp/empty\nchmod 755 /tmp/empty\nif ! have_user sshd; then\n  debug_log \"creating sshd user\"\n  if command -v useradd >/dev/null 2>&1; then\n    useradd -r -M -d /tmp/empty -s /sbin/nologin sshd || true\n  elif command -v adduser >/dev/null 2>&1; then\n    adduser -D -H -s /sbin/nologin -h /tmp/empty sshd || true\n  fi\nfi\n\nif [ ! -f \"$BASE/hostkeys/ssh_host_ed25519_key\" ]; then\n  echo \"host key missing at $BASE/hostkeys/ssh_host_ed25519_key\" >&2\n  exit 1\nfi\nchmod 600 \"$BASE/hostkeys/\"*\n\nif [ -f \"$BASE/sshd.pid\" ] && kill -0 \"$(cat \"$BASE/sshd.pid\")\" && [ -f \"$BASE/sshd.port\" ]; then\n  debug_log \"sshd already running\"\n  cat \"$BASE/sshd.port\" >&3\n  exit 0\nfi\ndebug_log \"sshd not running, starting new instance\"\n\nrand_port() {\n  val=\"$(od -An -N2 -tu2 /dev/urandom | tr -d ' ')\"\n  echo $((20000 + (val % 45000)))\n}\n\nREMOTE_PATH=\"${PATH:-/usr/bin:/bin}\"\nENV_EXPORTS=\"$(env | awk -F= '/^KUBERNETES_/ {print $1}')\"\nUSER_HOME=\"$(get_home \"$LOGIN_USER\")\"\n\ni=0\nwhile [ $i -lt 30 ]; do\n  i=$((i+1))\n  PORT=\"$(rand_port)\"\n\n  cat > \"$BASE/sshd_config\" <<EOF\nListenAddress 127.0.0.1\nPort $PORT\nHostKey $BASE/hostkeys/ssh_host_ed25519_key\nPidFile $BASE/sshd.pid\nAuthorizedKeysFile $BASE/authorized_keys\nPubkeyAuthentication yes\nStrictModes no\nPasswordAuthentication no\nKbdInteractiveAuthentication no\nChallengeResponseAuthentication no\nPermitEmptyPasswords no\nAllowAgentForwarding yes\nAllowTcpForwarding yes\nX11Forwarding no\nSubsystem sftp internal-sftp\nLogLevel VERBOSE\nPermitUserEnvironment yes\nEOF\n\n  printf 'SetEnv PATH=%s\\n' \"$REMOTE_PATH\" >> \"$BASE/sshd_config\"\n  for key in $ENV_EXPORTS; do\n    val=\"$(printenv \"$key\" || true)\"\n    printf 'SetEnv %s=%s\\n' \"$key\" \"$val\" >> \"$BASE/sshd_config\"\n  done\n  if [ -n \"${KUBECONFIG:-}\" ]; then\n    printf 'SetEnv KUBECONFIG=%s\\n' \"$KUBECONFIG\" >> \"$BASE/sshd_config\"\n  fi\n  if [ -n \"$USER_HOME\" ] && [ -d \"$USER_HOME\" ]; then\n    mkdir -p \"$USER_HOME/.ssh\"\n    {\n      printf 'PATH=%s\\n' \"$REMOTE_PATH\"\n      for key in $ENV_EXPORTS; do\n        val=\"$(printenv \"$key\" || true)\"\n        printf '%s=%s\\n' \"$key\" \"$val\"\n      done\n      if [ -n \"${KUBECONFIG:-}\" ]; then\n        printf 'KUBECONFIG=%s\\n' \"$KUBECONFIG\"\n      fi\n    } > \"$USER_HOME/.ssh/environment\"\n    chmod 700 \"$USER_HOME/.ssh\"\n    chmod 600 \"$USER_HOME/.ssh/environment\"\n    if [ -n \"$LOGIN_USER\" ]; then\n      chown \"$LOGIN_USER\":\"$LOGIN_USER\" \"$USER_HOME/.ssh\" \"$USER_HOME/.ssh/environment\" || true\n    fi\n  fi\n\n  {\n    printf 'PATH=%s\\n' \"$REMOTE_PATH\"\n    for key in $ENV_EXPORTS; do\n      val=\"$(printenv \"$key\" || true)\"\n      printf '%s=%s\\n' \"$key\" \"$val\"\n    done\n    if [ -n \"${KUBECONFIG:-}\" ]; then\n      printf 'KUBECONFIG=%s\\n' \"$KUBECONFIG\"\n    fi\n  } > \"$ENV_FILE\"\n  chmod 600 \"$ENV_FILE\"\n  if [ -n \"$LOGIN_USER\" ]; then\n    chown \"$LOGIN_USER\":\"$LOGIN_USER\" \"$ENV_FILE\" || true\n  fi\n\n  chmod 600 \"$BASE/sshd_config\"\n  rm -f \"$BASE/sshd.pid\"\n  debug_log \"launching sshd on $PORT\"\n  \"$SSHD\" -f \"$BASE/sshd_config\" -E \"$BASE/logs/sshd.log\" </dev/null || true\n  j=0\n  while [ $j -lt 10 ]; do\n    if [ -f \"$BASE/sshd.pid\" ] && kill -0 \"$(cat \"$BASE/sshd.pid\")\"; then\n      echo \"$PORT\" > \"$BASE/sshd.port\"\n      chmod 600 \"$BASE/sshd.pid\" \"$BASE/sshd.port\"\n      echo \"$PORT\" >&3\n      exit 0\n    fi\n    j=$((j+1))\n    sleep 1\n  done\n  debug_log \"retrying sshd start (attempt $i)\"\ndone\n\necho \"sshd did not start\" >&2\nexit 1\n"@,
{
    String::from_str(
        "#!/bin/sh\nset -eu\n\nBASE=\"$1\"\nLOGIN_USER=\"$2\"\nPUBKEY_LINE=\"$3\"\nSSHD=\"$BASE/bundle/sshd\"\nENV_FILE=\"$BASE/environment\"\n\nexec 3>&1\nexec 1>&2\n\ndebug_log() {\n  printf '[sshpod] %s\\n' \"$1\" >&2\n}\n\numask 077\nmkdir -p \"$BASE\" \"$BASE/logs\" \"$BASE/hostkeys\"\nchmod 700 \"$BASE\" \"$BASE/hostkeys\" \"$BASE/logs\"\nBASE_PARENT=\"$(dirname \"$BASE\")\"\nTOP_DIR=\"$(dirname \"$BASE_PARENT\")\"\nchmod 711 \"$TOP_DIR\" \"$BASE_PARENT\"\ndebug_log \"start script begin (base=$BASE user=$LOGIN_USER)\"\n\nget_home() {\n  if command -v getent >/dev/null 2>&1; then\n    getent passwd \"$1\" | awk -F: '{print $6}'\n  elif [ -f /etc/passwd ]; then\n    awk -F: -v u=\"$1\" '$1==u {print $6}' /etc/passwd | head -n1\n  fi\n}\n\nhave_user() {\n  if command -v getent >/dev/null 2>&1; then\n    getent passwd \"$1\"\n  elif [ -f /etc/passwd ]; then\n    awk -F: -v u=\"$1\" '$1==u {found=1} END{exit found?0:1}' /etc/passwd\n  else\n    return 1\n  fi\n}\n\nif [ ! -f \"$BASE/authorized_keys\" ]; then\n  : > \"$BASE/authorized_keys\"\nfi\ngrep -qxF \"$PUBKEY_LINE\" \"$BASE/authorized_keys\" || printf '%s\\n' \"$PUBKEY_LINE\" >> \"$BASE/authorized_keys\"\nchmod 600 \"$BASE/authorized_keys\"\nif [ -n \"$LOGIN_USER\" ]; then\n  chown \"$LOGIN_USER\":\"$LOGIN_USER\" \"$BASE\" \"$BASE/authorized_keys\" || true\nfi\n\nmkdir -p /tmp/empty\nchmod 755 /tmp/empty\nif ! have_user sshd; then\n  debug_log \"creating sshd user\"\n  if command -v useradd >/dev/null 2>&1; then\n    useradd -r -M -d /tmp/empty -s /sbin/nologin sshd || true\n  elif command -v adduser >/dev/null 2>&1; then\n    adduser -D -H -s /sbin/nologin -h /tmp/empty sshd || true\n  fi\nfi\n\nif [ ! -f \"$BASE/hostkeys/ssh_host_ed25519_key\" ]; then\n  echo \"host key missing at $BASE/hostkeys/ssh_host_ed25519_key\" >&2\n  exit 1\nfi\nchmod 600 \"$BASE/hostkeys/\"*\n\nif [ -f \"$BASE/sshd.pid\" ] && kill -0 \"$(cat \"$BASE/sshd.pid\")\" && [ -f \"$BASE/sshd.port\" ]; then\n  debug_log \"sshd already running\"\n  cat \"$BASE/sshd.port\" >&3\n  exit 0\nfi\ndebug_log \"sshd not running, starting new instance\"\n\nrand_port() {\n  val=\"$(od -An -N2 -tu2 /dev/urandom | tr -d ' ')\"\n  echo $((20000 + (val % 45000)))\n}\n\nREMOTE_PATH=\"${PATH:-/usr/bin:/bin}\"\nENV_EXPORTS=\"$(env | awk -F= '/^KUBERNETES_/ {print $1}')\"\nUSER_HOME=\"$(get_home \"$LOGIN_USER\")\"\n\ni=0\nwhile [ $i -lt 30 ]; do\n  i=$((i+1))\n  PORT=\"$(rand_port)\"\n\n  cat > \"$BASE/sshd_config\" <<EOF\nListenAddress 127.0.0.1\nPort $PORT\nHostKey $BASE/hostkeys/ssh_host_ed25519_key\nPidFile $BASE/sshd.pid\nAuthorizedKeysFile $BASE/authorized_keys\nPubkeyAuthentication yes\nStrictModes no\nPasswordAuthentication no\nKbdInteractiveAuthentication no\nChallengeResponseAuthentication no\nPermitEmptyPasswords no\nAllowAgentForwarding yes\nAllowTcpForwarding yes\nX11Forwarding no\nSubsystem sftp internal-sftp\nLogLevel VERBOSE\nPermitUserEnvironment yes\nEOF\n\n  printf 'SetEnv PATH=%s\\n' \"$REMOTE_PATH\" >> \"$BASE/sshd_config\"\n  for key in $ENV_EXPORTS; do\n    val=\"$(printenv \"$key\" || true)\"\n    printf 'SetEnv %s=%s\\n' \"$key\" \"$val\" >> \"$BASE/sshd_config\"\n  done\n  if [ -n \"${KUBECONFIG:-}\" ]; then\n    printf 'SetEnv KUBECONFIG=%s\\n' \"$KUBECONFIG\" >> \"$BASE/sshd_config\"\n  fi\n  if [ -n \"$USER_HOME\" ] && [ -d \"$USER_HOME\" ]; then\n    mkdir -p \"$USER_HOME/.ssh\"\n    {\n      printf 'PATH=%s\\n' \"$REMOTE_PATH\"\n      for key in $ENV_EXPORTS; do\n        val=\"$(printenv \"$key\" || true)\"\n        printf '%s=%s\\n' \"$key\" \"$val\"\n      done\n      if [ -n \"${KUBECONFIG:-}\" ]; then\n        printf 'KUBECONFIG=%s\\n' \"$KUBECONFIG\"\n      fi\n    } > \"$USER_HOME/.ssh/environment\"\n    chmod 700 \"$USER_HOME/.ssh\"\n    chmod 600 \"$USER_HOME/.ssh/environment\"\n    if [ -n \"$LOGIN_USER\" ]; then\n      chown \"$LOGIN_USER\":\"$LOGIN_USER\" \"$USER_HOME/.ssh\" \"$USER_HOME/.ssh/environment\" || true\n    fi\n  fi\n\n  {\n    printf 'PATH=%s\\n' \"$REMOTE_PATH\"\n    for key in $ENV_EXPORTS; do\n      val=\"$(printenv \"$key\" || true)\"\n      printf '%s=%s\\n' \"$key\" \"$val\"\n    done\n    if [ -n \"${KUBECONFIG:-}\" ]; then\n      printf 'KUBECONFIG=%s\\n' \"$KUBECONFIG\"\n    fi\n  } > \"$ENV_FILE\"\n  chmod 600 \"$ENV_FILE\"\n  if [ -n \"$LOGIN_USER\" ]; then\n    chown \"$LOGIN_USER\":\"$LOGIN_USER\" \"$ENV_FILE\" || true\n  fi\n\n  chmod 600 \"$BASE/sshd_config\"\n  rm -f \"$BASE/sshd.pid\"\n  debug_log \"launching sshd on $PORT\"\n  \"$SSHD\" -f \"$BASE/sshd_config\" -E \"$BASE/logs/sshd.log\" </dev/null || true\n  j=0\n  while [ $j -lt 10 ]; do\n    if [ -f \"$BASE/sshd.pid\" ] && kill -0 \"$(cat \"$BASE/sshd.pid\")\"; then\n      echo \"$PORT\" > \"$BASE/sshd.port\"\n      chmod 600 \"$BASE/sshd.pid\" \"$BASE/sshd.port\"\n      echo \"$PORT\" >&3\n      exit 0\n    fi\n    j=$((j+1))\n    sleep 1\n  done\n  debug_log \"retrying sshd start (attempt $i)\"\ndone\n\necho \"sshd did not start\" >&2\nexit 1\n",
    )
}

/// The argument list the server-start script runs under.
pub fn sshd_command_args(base: &str, login_user: &str, pubkey_line: &str) -> (r: Vec<String>)
    ensures
        r@.map_values(|a: String| a@) =~= seq![
            "sh"@,
            "-s"@,
            "--"@,
            base@,
            login_user@,
            pubkey_line@,
        ],
{
    let mut r: Vec<String> = Vec::new();
    r.push(String::from_str("sh"));
    r.push(String::from_str("-s"));
    r.push(String::from_str("--"));
    r.push(String::from_str(base));
    r.push(String::from_str(login_user));
    r.push(String::from_str(pubkey_line));
    proof {
        assert(r@.map_values(|a: String| a@) =~= seq![
            "sh"@,
            "-s"@,
            "--"@,
            base@,
            login_user@,
            pubkey_line@,
        ]);
    }
    r
}

/// Reads the port the server-start script reported.
pub fn parse_port_output(out: &str) -> (r: Result<u16, RemoteError>)
    ensures
        match spec_parse_u16(trim_spec(out@)) {
            Option::Some(p) => r is Ok && r->Ok_0 == p,
            Option::None => r is Err && r->Err_0.message@ == "unexpected sshd port output: "@
                + out@,
        },
{
    match parse_u16(trim_str(out)) {
        Some(p) => Ok(p),
        None => {
            let mut m = String::from_str("unexpected sshd port output: ");
            m.append(out);
            Err(RemoteError { message: m })
        },
    }
}

/// The loopback port chosen from one random draw.
pub fn alloc_port(rand: u16) -> (r: u16)
    ensures
        r == 20000 + (rand as int % 45000),
        20000 <= r < 65000,
{
    20000 + rand % 45000
}

/// Where the server bootstrap stands.
#[derive(Debug, Clone, PartialEq, Eq)]
pub enum BootstrapState {
    Probe,
    Allocate { attempt: u8 },
    Poll { attempt: u8, port: u16, tries: u8 },
    Reuse { port: u16 },
    Ready { port: u16 },
    GiveUp,
}

/// What the last bootstrap action observed.
#[derive(Debug, Clone, PartialEq, Eq)]
pub enum BootstrapEvent {
    ProbeRunning { port: u16 },
    ProbeNotRunning,
    Launched { port: u16 },
    PidLive,
    PidMissing,
}

/// The port a terminal bootstrap state hands out.
pub open spec fn spec_emitted_port(state: BootstrapState) -> Option<u16> {
    match state {
        BootstrapState::Reuse { port } => Option::Some(port),
        BootstrapState::Ready { port } => Option::Some(port),
        _ => Option::None,
    }
}

/// One step of the server bootstrap: a live server is reused without
/// any launch; otherwise ports are tried up to thirty times, each
/// polled up to ten times, before giving up.
pub fn bootstrap_step(state: BootstrapState, event: BootstrapEvent) -> (r: BootstrapState)
    ensures
        match (state, event) {
            (BootstrapState::Probe, BootstrapEvent::ProbeRunning { port }) => r
                == (BootstrapState::Reuse { port }),
            (BootstrapState::Probe, BootstrapEvent::ProbeNotRunning) => r
                == (BootstrapState::Allocate { attempt: 1 }),
            (BootstrapState::Allocate { attempt }, BootstrapEvent::Launched { port }) => r
                == (BootstrapState::Poll { attempt, port, tries: 0 }),
            (BootstrapState::Poll { attempt, port, tries }, BootstrapEvent::PidLive) => r
                == (BootstrapState::Ready { port }),
            (BootstrapState::Poll { attempt, port, tries }, BootstrapEvent::PidMissing) => {
                if tries < 9 {
                    r == (BootstrapState::Poll { attempt, port, tries: (tries + 1) as u8 })
                } else if attempt < 30 {
                    r == (BootstrapState::Allocate { attempt: (attempt + 1) as u8 })
                } else {
                    r == BootstrapState::GiveUp
                }
            },
            _ => r == state,
        },
{
    match (state, event) {
        (BootstrapState::Probe, BootstrapEvent::ProbeRunning { port }) => BootstrapState::Reuse {
            port,
        },
        (BootstrapState::Probe, BootstrapEvent::ProbeNotRunning) => BootstrapState::Allocate {
            attempt: 1,
        },
        (BootstrapState::Allocate { attempt }, BootstrapEvent::Launched { port }) => {
            BootstrapState::Poll { attempt, port, tries: 0 }
        },
        (BootstrapState::Poll { attempt: _, port, tries: _ }, BootstrapEvent::PidLive) => {
            BootstrapState::Ready { port }
        },
        (BootstrapState::Poll { attempt, port, tries }, BootstrapEvent::PidMissing) => {
            if tries < 9 {
                BootstrapState::Poll { attempt, port, tries: tries + 1 }
            } else if attempt < 30 {
                BootstrapState::Allocate { attempt: attempt + 1 }
            } else {
                BootstrapState::GiveUp
            }
        },
        (s, _) => s,
    }
}

} // verus!
