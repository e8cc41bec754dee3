//! Local credentials: the key cache layout and the key-generation
//! command line.

use vstd::prelude::*;

verus! {

/// An Ed25519 keypair: the private PEM and the public one-liner.
pub struct Key {
    pub private: String,
    pub public: String,
}

/// The local key cache directory under a home directory.
pub fn cache_dir(home: &str) -> (r: String)
    ensures
        r@ == home@ + "/.cache/sshpod"@,
{
    let mut r = String::from_str(home);
    r.append("/.cache/sshpod");
    r
}

/// The private and public key paths of a named key in the cache.
pub fn key_paths(dir: &str, name: &str) -> (r: (String, String))
    ensures
        r.0@ == dir@ + "/"@ + name@,
        r.1@ == dir@ + "/"@ + name@ + ".pub"@,
{
    let mut private = String::from_str(dir);
    private.append("/");
    private.append(name);
    let mut public = String::from_str(private.as_str());
    public.append(".pub");
    (private, public)
}

/// The key-generation argument list: a quiet Ed25519 keypair with no
/// passphrase at the named path.
pub fn keygen_args(private_path: &str) -> (r: Vec<String>)
    ensures
        r@.map_values(|a: String| a@) == seq![
            "-q"@,
            "-t"@,
            "ed25519"@,
            "-f"@,
            private_path@,
            "-N"@,
            ""@,
        ],
{
    let mut r: Vec<String> = Vec::new();
    r.push(String::from_str("-q"));
    r.push(String::from_str("-t"));
    r.push(String::from_str("ed25519"));
    r.push(String::from_str("-f"));
    r.push(String::from_str(private_path));
    r.push(String::from_str("-N"));
    r.push(String::new());
    proof {
        reveal_strlit("");
        assert(""@ =~= Seq::<char>::empty());
        assert(r@.map_values(|a: String| a@) =~= seq![
            "-q"@,
            "-t"@,
            "ed25519"@,
            "-f"@,
            private_path@,
            "-N"@,
            ""@,
        ]);
    }
    r
}

} // verus!
