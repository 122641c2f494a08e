//! Trusted interface to the one-shot broadcast cancellation signal of the
//! `tokio_util` crate. The token value is opaque here: the registry tracks
//! rotation through an explicit generation counter instead, and nothing is
//! assumed about the shared signal state behind a handle.

use vstd::prelude::*;

verus! {

/// `tokio_util`'s cancellation token, declared so that it can stand in
/// signatures and fields; nothing of its inside is visible to proofs.
#[verifier::external_type_specification]
#[verifier::external_body]
pub struct ExCancellationToken(tokio_util::sync::CancellationToken);

/// Relies on CancellationToken::new: returns a fresh token in the
/// non-cancelled state, sharing no signal with any existing handle.
pub assume_specification[ tokio_util::sync::CancellationToken::new ]() -> tokio_util::sync::CancellationToken;

/// Relies on CancellationToken::cancel: fires the shared signal behind this
/// handle and all its clones; a fired token is permanently inert.
pub assume_specification[ tokio_util::sync::CancellationToken::cancel ](
    t: &tokio_util::sync::CancellationToken,
);

/// Relies on Clone::clone for CancellationToken: returns a handle to the
/// same shared signal, fired exactly when the original fires.
pub assume_specification[ <tokio_util::sync::CancellationToken as Clone>::clone ](
    t: &tokio_util::sync::CancellationToken,
) -> tokio_util::sync::CancellationToken;

} // verus!
