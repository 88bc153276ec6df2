use vstd::prelude::*;
use crate::paths::{ext_of, extension_of, has_ext, str_eq};

verus! {

/// The tool and invocations that generate a keypair: first `<tool> -o
/// <secret>` to create the identity, then `<tool> -y <secret>` whose output
/// is written to the public key file.
pub struct KeygenPlan {
    pub tool: String,
    pub install_hint: String,
    pub gen_args: Vec<String>,
    pub pub_args: Vec<String>,
    pub public_path: String,
}

/// Whether the identity file's extension selects the `age` toolchain.
pub open spec fn keygen_uses_age(secret_path: Seq<char>) -> bool {
    has_ext(secret_path) && ext_of(secret_path) == "age"@
}

/// Plan a keypair generation: the keygen tool is chosen by the identity
/// file's extension (`age` only for `.age`, `rage` otherwise), and the
/// derived public key goes to `public_path`.
pub fn generate_keypair(secret_path: &str, public_path: &str) -> (r: KeygenPlan)
    ensures
        keygen_uses_age(secret_path@) ==> r.tool@ == "age-keygen"@ && r.install_hint@
            == "`age-keygen` not found. Please install age: https://github.com/FiloSottile/age"@,
        !keygen_uses_age(secret_path@) ==> r.tool@ == "rage-keygen"@ && r.install_hint@
            == "`rage-keygen` not found. Please install rage: https://github.com/str4d/rage"@,
        r.gen_args.deep_view() == seq!["-o"@, secret_path@],
        r.pub_args.deep_view() == seq!["-y"@, secret_path@],
        r.public_path@ == public_path@,
{
    let uses_age = match extension_of(secret_path) {
        Some(e) => str_eq(e.as_str(), "age"),
        None => false,
    };
    let (tool, install_hint) = if uses_age {
        (
            String::from_str("age-keygen"),
            String::from_str(
                "`age-keygen` not found. Please install age: https://github.com/FiloSottile/age",
            ),
        )
    } else {
        (
            String::from_str("rage-keygen"),
            String::from_str(
                "`rage-keygen` not found. Please install rage: https://github.com/str4d/rage",
            ),
        )
    };
    let mut gen_args: Vec<String> = Vec::new();
    gen_args.push(String::from_str("-o"));
    gen_args.push(String::from_str(secret_path));
    let mut pub_args: Vec<String> = Vec::new();
    pub_args.push(String::from_str("-y"));
    pub_args.push(String::from_str(secret_path));
    proof {
        assert(gen_args.deep_view() =~= seq!["-o"@, secret_path@]);
        assert(pub_args.deep_view() =~= seq!["-y"@, secret_path@]);
    }
    KeygenPlan { tool, install_hint, gen_args, pub_args, public_path: String::from_str(public_path) }
}

} // verus!
