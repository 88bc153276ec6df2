pub mod age;
pub mod backend;
pub mod crypto;
pub mod detect;
pub mod plain;
pub mod rage;

pub use backend::{CryptoBackend, CryptoError};
pub use crypto::{
    decrypt, default_decrypt_backend, default_encrypt_backend, detect_backend, encrypt,
    set_decrypt_factory, set_encrypt_factory, BackendKind, BackendPolicy, Registry,
};
pub use plain::PlainBackend;
