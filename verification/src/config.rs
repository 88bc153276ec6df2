use vstd::prelude::*;

verus! {

/// Process-wide configuration: where the vault lives and how entries are
/// named. Built once at startup and passed to every component that needs it.
pub struct Config {
    /// Directory that holds the vault, the identity file and the public key.
    pub base_dir: String,
    /// `<base_dir>/vault`: the root of the encrypted entry tree.
    pub prefix: String,
    /// `<base_dir>/private.<crypto_extension>`: the identity (secret key) file.
    pub secret: String,
    /// File extension for encrypted entries, e.g. "age" or "rage".
    pub crypto_extension: String,
    /// Name of the public key file, e.g. "public.key".
    pub public_key_filename: String,
}

impl Config {
    /// The absolute path of the encrypted file for entry `name`:
    /// `<prefix>/<name>.<crypto_extension>`.
    pub open spec fn entry_path_spec(&self, name: Seq<char>) -> Seq<char> {
        self.prefix@ + "/"@ + name + "."@ + self.crypto_extension@
    }

    /// The path of the encrypted entry for a given name.
    pub fn entry_path(&self, name: &str) -> (r: String)
        ensures
            r@ == self.entry_path_spec(name@),
    {
        let mut r = self.prefix.clone();
        r.append("/");
        r.append(name);
        r.append(".");
        r.append(self.crypto_extension.as_str());
        r
    }

    /// The path of the encrypted file for entry `name`, relative to the vault
    /// root: `<name>.<crypto_extension>`.
    pub open spec fn entry_rel_spec(&self, name: Seq<char>) -> Seq<char> {
        name + "."@ + self.crypto_extension@
    }

    /// Same as `entry_path`, but relative to the vault root; this is the key
    /// under which the vault model stores the entry.
    pub fn entry_rel(&self, name: &str) -> (r: String)
        ensures
            r@ == self.entry_rel_spec(name@),
    {
        let mut r = String::from_str(name);
        r.append(".");
        r.append(self.crypto_extension.as_str());
        r
    }
}

/// Build the configuration the way process startup does: an explicit base
/// directory override wins; otherwise the data home, or `.local/share` under
/// the home directory, with `passman` appended. The vault prefix, identity
/// path and public key name are derived from it. A missing home with no
/// override has no configuration at all, so some directory must be given.
pub fn load_config(
    passman_dir: Option<String>,
    xdg_data_home: Option<String>,
    home_dir: Option<String>,
    public_key_override: Option<String>,
    crypto_extension: String,
) -> (r: Config)
    requires
        passman_dir is Some || xdg_data_home is Some || home_dir is Some,
    ensures
        passman_dir matches Some(d) ==> r.base_dir@ == d@,
        passman_dir is None ==> (xdg_data_home matches Some(x) ==> r.base_dir@ == x@
            + "/passman"@),
        passman_dir is None && xdg_data_home is None ==> (home_dir matches Some(h)
            ==> r.base_dir@ == h@ + "/.local/share"@ + "/passman"@),
        r.prefix@ == r.base_dir@ + "/vault"@,
        r.secret@ == r.base_dir@ + "/private."@ + crypto_extension@,
        r.crypto_extension@ == crypto_extension@,
        public_key_override matches Some(p) ==> r.public_key_filename@ == p@,
        public_key_override is None ==> r.public_key_filename@ == "public.key"@,
{
    let base_dir = match passman_dir {
        Some(d) => d,
        None => {
            let mut data_home = match xdg_data_home {
                Some(x) => x,
                None => {
                    match home_dir {
                        Some(h) => {
                            let mut d = h;
                            d.append("/.local/share");
                            d
                        },
                        None => {
                            // Unreachable: some directory is required.
                            String::new()
                        },
                    }
                },
            };
            data_home.append("/passman");
            data_home
        },
    };
    let mut prefix = base_dir.clone();
    prefix.append("/vault");
    let mut secret = base_dir.clone();
    secret.append("/private.");
    secret.append(crypto_extension.as_str());
    let public_key_filename = match public_key_override {
        Some(p) => p,
        None => String::from_str("public.key"),
    };
    Config { base_dir, prefix, secret, crypto_extension, public_key_filename }
}

} // verus!
