//! Redirecting a compiled function to another by writing a jump over its first bytes, and
//! putting those bytes back.
//!
//! `x86` and `x86_64` assemble the shortest jump that reaches; `trampoline` builds it between
//! two addresses and reads back where a jump leads; `patch` checks a target and keeps what a
//! patch overwrites in a guard that hands it back once; `image` is code memory as bytes, into
//! which patches are written; `laws` states what patches do to that memory; `page` finds the
//! page whose protection is lifted around a write; `samples` holds small functions to patch.
pub mod image;
pub mod jump;
pub mod laws;
pub mod le;
pub mod page;
pub mod patch;
pub mod samples;
pub mod trampoline;
pub mod x86;
pub mod x86_64;

pub use image::CodeImage;
pub use jump::Width;
pub use patch::{PatchError, PatchGuard, Write};
