//! Guarded byte buffers for key material, and a transcription-tolerant text
//! form for them.

pub mod store;
pub mod secbuf;
pub mod codec;

pub use secbuf::{Locker, ProtectState, SecBuf};
pub use store::{Bufferable, RustBuf};
pub use secbuf::is_allowed_secure_size;
pub use codec::{url_safe, url_unsafe, SodiumError, PARITY_LEN};
