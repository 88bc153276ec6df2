use vstd::prelude::*;

verus! {

/// The `rage` tool: entries carry the extension "rage", encryption and
/// decryption shell out to the `rage` binary, keys come from `rage-keygen`.
/// This type names the tool for the registry; the library itself never
/// launches it.
pub struct Rage;

impl Rage {
    /// The file extension of entries encrypted with this tool.
    pub fn extension(&self) -> (r: &'static str)
        ensures
            r@ == "rage"@,
    {
        "rage"
    }

    /// The executable that encrypts and decrypts.
    pub fn tool(&self) -> (r: &'static str)
        ensures
            r@ == "rage"@,
    {
        "rage"
    }

    /// The executable that generates and derives keys.
    pub fn keygen_tool(&self) -> (r: &'static str)
        ensures
            r@ == "rage-keygen"@,
    {
        "rage-keygen"
    }
}

} // verus!
