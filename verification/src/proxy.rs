//! Resolution decisions of a proxy run: the login user, the namespace,
//! the container, and the per-container staging directory.

use vstd::prelude::*;
use crate::strutil::str_eq;

verus! {

/// A resolution failure, carried as a message.
#[derive(Debug, Clone)]
pub struct ProxyError {
    pub message: String,
}

/// The login user of a run: the argument when it names one, else the
/// local account.
pub fn resolve_login_user(arg: &Option<String>, os_user: &str) -> (r: String)
    ensures
        match arg {
            Option::Some(u) => if u@.len() > 0 {
                r@ == u@
            } else {
                r@ == os_user@
            },
            Option::None => r@ == os_user@,
        },
{
    match arg {
        Some(u) => {
            if u.as_str().unicode_len() > 0 {
                u.clone()
            } else {
                String::from_str(os_user)
            }
        },
        None => String::from_str(os_user),
    }
}

/// The namespace of a run: the hostname's, else the context's default,
/// else empty.
pub fn resolve_namespace(host_ns: &Option<String>, ctx_default: &Option<String>) -> (r: String)
    ensures
        match host_ns {
            Option::Some(ns) => r@ == ns@,
            Option::None => match ctx_default {
                Option::Some(d) => r@ == d@,
                Option::None => r@ == Seq::<char>::empty(),
            },
        },
{
    match host_ns {
        Some(ns) => ns.clone(),
        None => match ctx_default {
            Some(d) => d.clone(),
            None => String::new(),
        },
    }
}

/// The refusal when a named container is not in the pod.
pub open spec fn spec_container_missing(c: Seq<char>, pod: Seq<char>) -> Seq<char> {
    "container `"@ + c + "` not found in pod "@ + pod
}

/// The refusal when no container is named and the pod has several.
pub open spec fn spec_container_ambiguous() -> Seq<char> {
    "This Pod has multiple containers. Use container--<container>.pod--<pod>.namespace--<namespace>[.context--<context>].sshpod to specify the target container."@
}

/// The container of a run: the named one when the pod holds it, the
/// sole container when none is named, and a refusal otherwise.
#[verifier::loop_isolation(false)]
pub fn resolve_container(requested: &Option<String>, containers: &Vec<String>, pod: &str) -> (r:
    Result<String, ProxyError>)
    ensures
        match requested {
            Option::Some(c) => {
                &&& (r is Ok <==> exists|i: int|
                    0 <= i < containers@.len() && containers@[i]@ == c@)
                &&& r is Ok ==> r->Ok_0@ == c@
                &&& r is Err ==> r->Err_0.message@ == spec_container_missing(c@, pod@)
            },
            Option::None => {
                &&& (r is Ok <==> containers@.len() == 1)
                &&& r is Ok ==> r->Ok_0@ == containers@[0]@
                &&& r is Err ==> r->Err_0.message@ == spec_container_ambiguous()
            },
        },
{
    match requested {
        Some(c) => {
            let mut i: usize = 0;
            while i < containers.len()
                invariant
                    i <= containers@.len(),
                    forall|k: int| 0 <= k < i ==> containers@[k]@ != c@,
                decreases containers@.len() - i,
            {
                if str_eq(containers[i].as_str(), c.as_str()) {
                    return Ok(c.clone());
                }
                i += 1;
            }
            let mut m = String::from_str("container `");
            m.append(c.as_str());
            m.append("` not found in pod ");
            m.append(pod);
            Err(ProxyError { message: m })
        },
        None => {
            if containers.len() == 1 {
                Ok(containers[0].clone())
            } else {
                Err(
                    ProxyError {
                        message: String::from_str(
                            "This Pod has multiple containers. Use container--<container>.pod--<pod>.namespace--<namespace>[.context--<context>].sshpod to specify the target container.",
                        ),
                    },
                )
            }
        },
    }
}

/// The per-container staging directory inside the pod.
pub fn base_dir(uid: &str, container: &str) -> (r: String)
    ensures
        r@ == "/tmp/sshpod/"@ + uid@ + "/"@ + container@,
{
    let mut r = String::from_str("/tmp/sshpod/");
    r.append(uid);
    r.append("/");
    r.append(container);
    r
}

} // verus!
