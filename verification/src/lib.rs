//! Ring signatures over the ristretto255 group, verified at the byte level.
//!
//! Two schemes share one substrate:
//!
//! - [`clsag`]: concise linkable spontaneous anonymous group signatures
//!   over an N-by-K matrix of public keys, with key images that make two
//!   signatures by the same signer publicly linkable.  The reference
//!   verifier and the multi-scalar-multiplication verifier are specified
//!   by one verdict function, so they agree on every input.
//! - [`trs`]: a Fujisaki-style traceable ring signature bound to a tag
//!   (ring plus issue label), whose tracer compares two signatures and
//!   decides linked, traced-to-an-index, or independent.
//!
//! Scalars and points are carried as their canonical 32-byte encodings;
//! every group and hash operation is delegated to outside cryptographic
//! crates through the trusted wrappers of [`group`], whose contracts name
//! each result as a function of the argument bytes.  Everything above that
//! layer, from serialization and challenge chains to ring walks and the
//! tracing decision, is verified.
use vstd::prelude::*;

pub mod bytes;
pub mod clsag;
pub mod group;
pub mod trs;

verus! {

} // verus!
