//! Quorum certificates: the proof that enough stake agreed on one outcome.

use vstd::prelude::*;

verus! {

/// The outcome that a certificate certifies.
#[derive(Clone, Copy, Debug, PartialEq, Eq, Hash, Structural)]
pub enum CertificateKind {
    /// The data of a block is available.
    DA,
    /// A leaf is accepted.
    Yes,
    /// A leaf is refused.
    No,
}

/// An aggregated signature together with the outcome it certifies. A
/// certificate cannot be changed once it is built. It carries neither the
/// signer bitmask nor the stake table: whoever checks it supplies those from
/// the round it belongs to.
#[derive(Clone, Debug, PartialEq, Eq)]
pub struct QuorumCertificate<AGG> {
    kind: CertificateKind,
    aggregated_signature: AGG,
}

impl<AGG> QuorumCertificate<AGG> {
    /// The outcome certified.
    pub closed spec fn spec_kind(&self) -> CertificateKind {
        self.kind
    }

    /// The aggregated signature.
    pub closed spec fn spec_aggregated_signature(&self) -> AGG {
        self.aggregated_signature
    }

    /// The certificate of `kind` that rests on `aggregated_signature`.
    pub fn new(kind: CertificateKind, aggregated_signature: AGG) -> (certificate: Self)
        ensures
            certificate.kind() == kind,
            certificate.spec_aggregated_signature() == aggregated_signature,
    {
        QuorumCertificate { kind, aggregated_signature }
    }

    /// The outcome certified.
    #[verifier::when_used_as_spec(spec_kind)]
    pub fn kind(&self) -> (kind: CertificateKind)
        ensures
            kind == self.kind(),
    {
        self.kind
    }

    /// The aggregated signature.
    pub fn aggregated_signature(&self) -> (signature: &AGG)
        ensures
            *signature == self.spec_aggregated_signature(),
    {
        &self.aggregated_signature
    }

    /// Gives up the certificate for the aggregated signature in it.
    pub fn into_aggregated_signature(self) -> (signature: AGG)
        ensures
            signature == self.spec_aggregated_signature(),
    {
        self.aggregated_signature
    }
}

} // verus!
