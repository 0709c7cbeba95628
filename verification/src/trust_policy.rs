//! Trust pools, and the certificate chains that were checked against them.
//!
//! Building a certificate path and verifying its signatures is the business of a
//! path validator. The library says which checks it is to make
//! ([`chain_check`]); the ones that succeed are noted in the pool's
//! [`CertificateTrustPolicy`].

use vstd::prelude::*;

use crate::bytes::{bytes_equal, lemma_deep_bytes, lists_equal};

verus! {

broadcast use lemma_deep_bytes;

/// A chain to be verified against a trust pool, at a signing time.
#[derive(Debug)]
pub struct ChainCheck {
    /// The certificates above the first, in DER.
    pub intermediates: Vec<Vec<u8>>,
    /// The first certificate of the chain, in DER.
    pub end_entity: Vec<u8>,
    /// When the chain was used to sign, in seconds since the Unix epoch.
    pub signing_time: Option<i64>,
}

/// The mathematical value of a [`ChainCheck`].
pub struct ChainCheckView {
    pub intermediates: Seq<Seq<u8>>,
    pub end_entity: Seq<u8>,
    pub signing_time: Option<i64>,
}

impl DeepView for ChainCheck {
    type V = ChainCheckView;

    open spec fn deep_view(&self) -> ChainCheckView {
        ChainCheckView {
            intermediates: self.intermediates.deep_view(),
            end_entity: self.end_entity@,
            signing_time: self.signing_time,
        }
    }
}

/// A trust pool: its anchors, and the checks against them that succeeded.
#[derive(Debug)]
pub struct CertificateTrustPolicy {
    /// The pool's trust anchors, in DER.
    pub trust_anchor_ders: Vec<Vec<u8>>,
    /// The chains that a path validator accepted under these anchors.
    pub accepted: Vec<ChainCheck>,
}

/// The mathematical value of a [`CertificateTrustPolicy`].
pub struct CertificateTrustPolicyView {
    pub trust_anchor_ders: Seq<Seq<u8>>,
    pub accepted: Seq<ChainCheckView>,
}

impl DeepView for CertificateTrustPolicy {
    type V = CertificateTrustPolicyView;

    open spec fn deep_view(&self) -> CertificateTrustPolicyView {
        CertificateTrustPolicyView {
            trust_anchor_ders: self.trust_anchor_ders.deep_view(),
            accepted: self.accepted.deep_view(),
        }
    }
}

/// The check of a chain with at least one certificate: the first one is the end
/// entity, the others are the intermediates.
pub open spec fn check_of(chain: Seq<Seq<u8>>, signing_time: Option<i64>) -> ChainCheckView {
    ChainCheckView {
        intermediates: chain.subrange(1, chain.len() as int),
        end_entity: chain[0],
        signing_time,
    }
}

/// The check that decides whether a chain is trusted by a pool. An empty chain, or
/// a pool without anchors, needs none: the chain is not trusted.
pub open spec fn needed_check(
    chain: Seq<Seq<u8>>,
    signing_time: Option<i64>,
    anchors: Seq<Seq<u8>>,
) -> Option<ChainCheckView> {
    if chain.len() == 0 || anchors.len() == 0 {
        None
    } else {
        Some(check_of(chain, signing_time))
    }
}

/// A pool trusts a chain.
pub open spec fn trusts(
    policy: CertificateTrustPolicyView,
    chain: Seq<Seq<u8>>,
    signing_time: Option<i64>,
) -> bool {
    match needed_check(chain, signing_time, policy.trust_anchor_ders) {
        Some(check) => policy.accepted.contains(check),
        None => false,
    }
}

impl CertificateTrustPolicy {
    /// Whether the path validator accepted the chain that is made of
    /// `end_entity_cert_der` and `intermediates`.
    pub fn check_certificate_trust(
        &self,
        intermediates: &[Vec<u8>],
        end_entity_cert_der: &[u8],
        signing_time: Option<i64>,
    ) -> (accepted: bool)
        ensures
            accepted == self.deep_view().accepted.contains(
                ChainCheckView {
                    intermediates: intermediates.deep_view(),
                    end_entity: end_entity_cert_der@,
                    signing_time,
                },
            ),
    {
        let ghost asked = ChainCheckView {
            intermediates: intermediates.deep_view(),
            end_entity: end_entity_cert_der@,
            signing_time,
        };
        let mut i: usize = 0;
        while i < self.accepted.len()
            invariant
                i <= self.accepted.len(),
                asked == (ChainCheckView {
                    intermediates: intermediates.deep_view(),
                    end_entity: end_entity_cert_der@,
                    signing_time,
                }),
                forall|j: int| 0 <= j < i ==> self.accepted.deep_view()[j] != asked,
            decreases self.accepted.len() - i,
        {
            let noted: &ChainCheck = &self.accepted[i];
            assert(self.accepted.deep_view()[i as int] == noted.deep_view());
            if lists_equal(noted.intermediates.as_slice(), intermediates)
                && bytes_equal(noted.end_entity.as_slice(), end_entity_cert_der)
                && same_time(noted.signing_time, signing_time) {
                assert(noted.intermediates.deep_view() =~= intermediates.deep_view());
                assert(self.deep_view().accepted[i as int] == asked);
                return true;
            }
            i += 1;
        }
        false
    }
}

/// Whether two signing times are the same.
fn same_time(a: Option<i64>, b: Option<i64>) -> (same: bool)
    ensures
        same == (a == b),
{
    match (a, b) {
        (Some(x), Some(y)) => x == y,
        (None, None) => true,
        _ => false,
    }
}

/// Whether a trust pool has any anchors loaded.
pub fn has_anchors(ctp: &CertificateTrustPolicy) -> (loaded: bool)
    ensures
        loaded == (ctp.deep_view().trust_anchor_ders.len() > 0),
        loaded == (ctp.trust_anchor_ders@.len() > 0),
{
    ctp.trust_anchor_ders.len() > 0
}

/// The check that a path validator has to make before [`is_chain_trusted`] can
/// tell whether a chain is trusted; `None` if the answer is no without one.
pub fn chain_check(
    chain_der: &[Vec<u8>],
    signing_time: Option<i64>,
    ctp: &CertificateTrustPolicy,
) -> (check: Option<ChainCheck>)
    ensures
        check.deep_view() == needed_check(
            chain_der.deep_view(),
            signing_time,
            ctp.deep_view().trust_anchor_ders,
        ),
{
    if chain_der.is_empty() || !has_anchors(ctp) {
        return None;
    }
    let mut intermediates: Vec<Vec<u8>> = Vec::new();
    let mut i: usize = 1;
    while i < chain_der.len()
        invariant
            1 <= i <= chain_der.len(),
            intermediates.deep_view() == chain_der.deep_view().subrange(1, i as int),
        decreases chain_der.len() - i,
    {
        let ghost taken = intermediates.deep_view();
        intermediates.push(vstd::slice::slice_to_vec(chain_der[i].as_slice()));
        assert(intermediates.deep_view() =~= taken.push(chain_der.deep_view()[i as int]));
        i += 1;
        assert(intermediates.deep_view() =~= chain_der.deep_view().subrange(1, i as int));
    }
    Some(
        ChainCheck {
            intermediates,
            end_entity: vstd::slice::slice_to_vec(chain_der[0].as_slice()),
            signing_time,
        },
    )
}

/// Whether a trust pool trusts a certificate chain: the chain has a certificate,
/// the pool has an anchor, and the path validator accepted the chain.
pub fn is_chain_trusted(
    chain_der: &[Vec<u8>],
    signing_time: Option<i64>,
    ctp: &CertificateTrustPolicy,
) -> (trusted: bool)
    ensures
        trusted == trusts(ctp.deep_view(), chain_der.deep_view(), signing_time),
        trusted ==> chain_der@.len() > 0 && ctp.trust_anchor_ders@.len() > 0 && ctp.accepted@.len()
            > 0,
{
    if chain_der.is_empty() || !has_anchors(ctp) {
        return false;
    }
    let end_entity_cert_der: &Vec<u8> = &chain_der[0];
    let intermediates: &[Vec<u8>] = vstd::slice::slice_subrange(chain_der, 1, chain_der.len());
    assert(intermediates.deep_view() =~= chain_der.deep_view().subrange(
        1,
        chain_der.len() as int,
    ));
    ctp.check_certificate_trust(intermediates, end_entity_cert_der.as_slice(), signing_time)
}

} // verus!
