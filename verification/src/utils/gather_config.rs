use vstd::prelude::*;
use crate::config::Config;

verus! {

/// A snapshot of the runtime configuration: the configured paths, the
/// environment overrides that were set, where the external tools were found,
/// and the vault repository's `origin` URL when there is one. The binary
/// serializes its mirror of this type.
pub struct ConfigDump {
    pub base_dir: String,
    pub prefix: String,
    pub secret: String,
    pub crypto_extension: String,
    pub public_key_filename: String,
    pub env: Vec<(String, String)>,
    pub dependencies: Vec<(String, String)>,
    pub git_remote_origin: Option<String>,
}

/// Assemble the configuration snapshot from the loaded configuration and
/// what the environment probes reported.
pub fn extant_config(
    cfg: &Config,
    env: Vec<(String, String)>,
    dependencies: Vec<(String, String)>,
    git_remote_origin: Option<String>,
) -> (r: ConfigDump)
    ensures
        r.base_dir@ == cfg.base_dir@,
        r.prefix@ == cfg.prefix@,
        r.secret@ == cfg.secret@,
        r.crypto_extension@ == cfg.crypto_extension@,
        r.public_key_filename@ == cfg.public_key_filename@,
        r.env == env,
        r.dependencies == dependencies,
        r.git_remote_origin == git_remote_origin,
{
    ConfigDump {
        base_dir: cfg.base_dir.clone(),
        prefix: cfg.prefix.clone(),
        secret: cfg.secret.clone(),
        crypto_extension: cfg.crypto_extension.clone(),
        public_key_filename: cfg.public_key_filename.clone(),
        env,
        dependencies,
        git_remote_origin,
    }
}

} // verus!
