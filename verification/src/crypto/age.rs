use vstd::prelude::*;

verus! {

/// The `age` tool: entries carry the extension "age", encryption and
/// decryption shell out to the `age` binary, keys come from `age-keygen`.
/// This type names the tool for the registry; the library itself never
/// launches it.
pub struct Age;

impl Age {
    /// The file extension of entries encrypted with this tool.
    pub fn extension(&self) -> (r: &'static str)
        ensures
            r@ == "age"@,
    {
        "age"
    }

    /// The executable that encrypts and decrypts.
    pub fn tool(&self) -> (r: &'static str)
        ensures
            r@ == "age"@,
    {
        "age"
    }

    /// The executable that generates and derives keys.
    pub fn keygen_tool(&self) -> (r: &'static str)
        ensures
            r@ == "age-keygen"@,
    {
        "age-keygen"
    }
}

} // verus!
