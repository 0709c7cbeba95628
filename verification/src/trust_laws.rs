//! Laws of trust classification.

use vstd::prelude::*;

use crate::certificate::{
    der_oid, pem_blocks, utc_rfc3339, x509_certificate, CertificateIdentityView, CertificateView,
    ExtensionView,
};
use crate::trust_classification::{
    allows_document_signing, assurance_of, assurance_value_of, classification_of, code_of_level,
    der_chain, dn_of, entries_of, entry_of, is_document_signer, last_present, present,
    ChainEntryView, TIMESTAMP_NONE, TIMESTAMP_TRUSTED, TIMESTAMP_UNKNOWN, TRUST_C2PA_INTERIM,
    TRUST_C2PA_LEVEL_1, TRUST_C2PA_LEVEL_2, TRUST_CAWG_INTERIM, TRUST_UNKNOWN,
};
use crate::trust_policy::{needed_check, trusts, CertificateTrustPolicyView, ChainCheckView};

verus! {

/// The trust codes differ from one another, and so do the time stamp codes.
pub proof fn law_codes_are_distinct()
    ensures
        seq![
            TRUST_C2PA_LEVEL_2@,
            TRUST_C2PA_LEVEL_1@,
            TRUST_C2PA_INTERIM@,
            TRUST_CAWG_INTERIM@,
            TRUST_UNKNOWN@,
        ].no_duplicates(),
        seq![TIMESTAMP_TRUSTED@, TIMESTAMP_UNKNOWN@, TIMESTAMP_NONE@].no_duplicates(),
{
    reveal_strlit("openprov.trust.c2pa.level-2");
    reveal_strlit("openprov.trust.c2pa.level-1");
    reveal_strlit("openprov.trust.c2pa.interim");
    reveal_strlit("openprov.trust.cawg.interim");
    reveal_strlit("openprov.trust.unknown");
    reveal_strlit("openprov.timestamp.trusted");
    reveal_strlit("openprov.timestamp.unknown");
    reveal_strlit("openprov.timestamp.none");
    assert(TRUST_C2PA_LEVEL_2@[26] == '2' && TRUST_C2PA_LEVEL_1@[26] == '1');
    assert(TRUST_C2PA_LEVEL_2@[20] == 'l' && TRUST_C2PA_LEVEL_1@[20] == 'l');
    assert(TRUST_C2PA_INTERIM@[20] == 'i' && TRUST_CAWG_INTERIM@[20] == 'i');
    assert(TRUST_C2PA_INTERIM@[16] == '2' && TRUST_CAWG_INTERIM@[16] == 'a');
    assert(TRUST_UNKNOWN@.len() == 22 && TRUST_C2PA_LEVEL_1@.len() == 27);
    assert(TRUST_C2PA_LEVEL_2@.len() == 27 && TRUST_C2PA_INTERIM@.len() == 27);
    assert(TRUST_CAWG_INTERIM@.len() == 27);
    assert(TIMESTAMP_TRUSTED@[19] == 't' && TIMESTAMP_UNKNOWN@[19] == 'u');
    assert(TIMESTAMP_NONE@[19] == 'n');
}

/// A claim signature is never called better than unknown unless the C2PA pool trusts
/// its chain, and then it gets the code of its leaf certificate's assurance level:
/// level 2, level 1, or unknown. The interim codes are never given to it.
pub proof fn law_claim_level_needs_a_trusted_chain(
    label: Seq<char>,
    signing_pem: Seq<u8>,
    tsa_pem: Seq<u8>,
    signing_time: Option<i64>,
    c2pa: CertificateTrustPolicyView,
    ctsa: CertificateTrustPolicyView,
    assertions: Seq<(Seq<char>, Seq<u8>)>,
)
    ensures
        ({
            let chain = der_chain(signing_pem);
            let trust = classification_of(
                label,
                signing_pem,
                tsa_pem,
                signing_time,
                c2pa,
                ctsa,
                assertions,
            ).claim.trust;
            &&& trust == TRUST_C2PA_LEVEL_2@ || trust == TRUST_C2PA_LEVEL_1@ || trust
                == TRUST_UNKNOWN@
            &&& trust != TRUST_CAWG_INTERIM@
            &&& trust != TRUST_C2PA_INTERIM@
            &&& trust != TRUST_UNKNOWN@ ==> {
                &&& chain.len() > 0
                &&& c2pa.trust_anchor_ders.len() > 0
                &&& trusts(c2pa, chain, signing_time)
                &&& x509_certificate(chain[0]) is Some
                &&& trust == assurance_of(chain[0])
            }
            &&& trusts(c2pa, chain, signing_time) ==> trust == assurance_of(chain[0])
        }),
{
    law_codes_are_distinct();
    let codes = seq![
        TRUST_C2PA_LEVEL_2@,
        TRUST_C2PA_LEVEL_1@,
        TRUST_C2PA_INTERIM@,
        TRUST_CAWG_INTERIM@,
        TRUST_UNKNOWN@,
    ];
    assert(codes[0] != codes[2] && codes[0] != codes[3] && codes[1] != codes[2]);
    assert(codes[1] != codes[3] && codes[4] != codes[2] && codes[4] != codes[3]);
}

/// A pool without anchors trusts no chain, and no pool trusts an empty one.
pub proof fn law_nothing_is_trusted_without_anchors(
    policy: CertificateTrustPolicyView,
    chain: Seq<Seq<u8>>,
    signing_time: Option<i64>,
)
    requires
        policy.trust_anchor_ders.len() == 0 || chain.len() == 0,
    ensures
        !trusts(policy, chain, signing_time),
        needed_check(chain, signing_time, policy.trust_anchor_ders) is None,
{
}

/// The time stamp of a claim has the code for none exactly if it has no chain, the
/// code for trusted exactly if the CTSA pool trusts its chain, and otherwise the code
/// for unknown.
pub proof fn law_timestamp_code(
    label: Seq<char>,
    signing_pem: Seq<u8>,
    tsa_pem: Seq<u8>,
    signing_time: Option<i64>,
    c2pa: CertificateTrustPolicyView,
    ctsa: CertificateTrustPolicyView,
    assertions: Seq<(Seq<char>, Seq<u8>)>,
)
    ensures
        ({
            let chain = der_chain(tsa_pem);
            let timestamp = classification_of(
                label,
                signing_pem,
                tsa_pem,
                signing_time,
                c2pa,
                ctsa,
                assertions,
            ).claim.timestamp;
            &&& timestamp == TIMESTAMP_NONE@ <==> chain.len() == 0
            &&& timestamp == TIMESTAMP_TRUSTED@ <==> trusts(ctsa, chain, signing_time)
            &&& timestamp == TIMESTAMP_UNKNOWN@ <==> chain.len() > 0 && !trusts(
                ctsa,
                chain,
                signing_time,
            )
        }),
{
    law_codes_are_distinct();
    let codes = seq![TIMESTAMP_TRUSTED@, TIMESTAMP_UNKNOWN@, TIMESTAMP_NONE@];
    assert(codes[0] != codes[1] && codes[0] != codes[2] && codes[1] != codes[2]);
}

/// Each identity assertion has one entry, in order and under its label. Its code is
/// the interim one exactly if its leaf certificate is meant for document signing, and
/// otherwise unknown; its time stamp is not classified.
pub proof fn law_one_entry_per_identity(
    label: Seq<char>,
    signing_pem: Seq<u8>,
    tsa_pem: Seq<u8>,
    signing_time: Option<i64>,
    c2pa: CertificateTrustPolicyView,
    ctsa: CertificateTrustPolicyView,
    assertions: Seq<(Seq<char>, Seq<u8>)>,
    i: int,
)
    requires
        0 <= i < assertions.len(),
    ensures
        ({
            let identities = classification_of(
                label,
                signing_pem,
                tsa_pem,
                signing_time,
                c2pa,
                ctsa,
                assertions,
            ).identities;
            let chain = der_chain(assertions[i].1);
            let entry = identities[i];
            &&& identities.len() == assertions.len()
            &&& entry.label == assertions[i].0
            &&& entry.result.chain == entries_of(chain)
            &&& entry.result.timestamp == TIMESTAMP_NONE@
            &&& entry.result.trust == TRUST_CAWG_INTERIM@ <==> chain.len() > 0
                && is_document_signer(chain[0])
            &&& entry.result.trust == TRUST_CAWG_INTERIM@ || entry.result.trust == TRUST_UNKNOWN@
        }),
{
    law_codes_are_distinct();
    let codes = seq![
        TRUST_C2PA_LEVEL_2@,
        TRUST_C2PA_LEVEL_1@,
        TRUST_C2PA_INTERIM@,
        TRUST_CAWG_INTERIM@,
        TRUST_UNKNOWN@,
    ];
    assert(codes[3] != codes[4]);
}

/// The claim and the identity assertions are classified apart: neither the pools, nor
/// the time, nor the claim's chains bear on the identities, and the identities do not
/// bear on the claim.
pub proof fn law_claim_and_identities_are_independent(
    label: Seq<char>,
    signing_pem: Seq<u8>,
    tsa_pem: Seq<u8>,
    signing_time: Option<i64>,
    c2pa: CertificateTrustPolicyView,
    ctsa: CertificateTrustPolicyView,
    assertions: Seq<(Seq<char>, Seq<u8>)>,
    other_label: Seq<char>,
    other_signing_pem: Seq<u8>,
    other_tsa_pem: Seq<u8>,
    other_time: Option<i64>,
    other_c2pa: CertificateTrustPolicyView,
    other_ctsa: CertificateTrustPolicyView,
    other_assertions: Seq<(Seq<char>, Seq<u8>)>,
)
    ensures
        classification_of(label, signing_pem, tsa_pem, signing_time, c2pa, ctsa, assertions).claim
            == classification_of(
            other_label,
            signing_pem,
            tsa_pem,
            signing_time,
            c2pa,
            ctsa,
            other_assertions,
        ).claim,
        classification_of(
            label,
            signing_pem,
            tsa_pem,
            signing_time,
            c2pa,
            ctsa,
            assertions,
        ).identities == classification_of(
            other_label,
            other_signing_pem,
            other_tsa_pem,
            other_time,
            other_c2pa,
            other_ctsa,
            assertions,
        ).identities,
{
}

/// Two pools agree on a check that may be needed.
pub open spec fn agree_on(
    a: CertificateTrustPolicyView,
    b: CertificateTrustPolicyView,
    check: Option<ChainCheckView>,
) -> bool {
    &&& a.trust_anchor_ders == b.trust_anchor_ders
    &&& check matches Some(needed) ==> a.accepted.contains(needed) == b.accepted.contains(needed)
}

/// A classification rests on the two needed checks alone: pools with the same anchors
/// that agree on these checks give the same classification, whatever other checks
/// they have noted.
pub proof fn law_needed_checks_decide(
    label: Seq<char>,
    signing_pem: Seq<u8>,
    tsa_pem: Seq<u8>,
    signing_time: Option<i64>,
    c2pa: CertificateTrustPolicyView,
    ctsa: CertificateTrustPolicyView,
    assertions: Seq<(Seq<char>, Seq<u8>)>,
    other_c2pa: CertificateTrustPolicyView,
    other_ctsa: CertificateTrustPolicyView,
)
    requires
        agree_on(
            c2pa,
            other_c2pa,
            needed_check(der_chain(signing_pem), signing_time, c2pa.trust_anchor_ders),
        ),
        agree_on(
            ctsa,
            other_ctsa,
            needed_check(der_chain(tsa_pem), signing_time, ctsa.trust_anchor_ders),
        ),
    ensures
        classification_of(label, signing_pem, tsa_pem, signing_time, c2pa, ctsa, assertions)
            == classification_of(
            label,
            signing_pem,
            tsa_pem,
            signing_time,
            other_c2pa,
            other_ctsa,
            assertions,
        ),
{
}

/// Where every certificate of a chain can be read, the chain's entries are those of its
/// certificates, one by one, leaf to root.
pub proof fn law_entries_follow_the_chain(chain: Seq<Seq<u8>>)
    requires
        forall|i: int| 0 <= i < chain.len() ==> x509_certificate(#[trigger] chain[i]) is Some,
    ensures
        entries_of(chain).len() == chain.len(),
        forall|i: int|
            0 <= i < chain.len() ==> Some(#[trigger] entries_of(chain)[i]) == entry_of(chain[i]),
{
    let items = chain.map_values(|der: Seq<u8>| entry_of(der));
    assert forall|i: int| 0 <= i < items.len() implies (#[trigger] items[i]) is Some by {
        assert(x509_certificate(chain[i]) is Some);
    }
    lemma_present_all(items);
}

/// Nothing is left out of items that are all there.
proof fn lemma_present_all<T>(items: Seq<Option<T>>)
    requires
        forall|i: int| 0 <= i < items.len() ==> (#[trigger] items[i]) is Some,
    ensures
        present(items).len() == items.len(),
        forall|i: int| 0 <= i < items.len() ==> Some(#[trigger] present(items)[i]) == items[i],
    decreases items.len(),
{
    if items.len() > 0 {
        lemma_present_all(items.drop_last());
    }
}

/// What is no certificate leaves no trace: the entries of two chains put together are
/// those of the first followed by those of the second, and bytes that cannot be read
/// add none.
pub proof fn law_entries_keep_the_order(first: Seq<Seq<u8>>, second: Seq<Seq<u8>>)
    ensures
        entries_of(first + second) == entries_of(first) + entries_of(second),
        entries_of(first).len() <= first.len(),
        (forall|i: int| 0 <= i < first.len() ==> x509_certificate(#[trigger] first[i]) is None)
            ==> entries_of(first).len() == 0,
{
    let f = first.map_values(|der: Seq<u8>| entry_of(der));
    let s = second.map_values(|der: Seq<u8>| entry_of(der));
    assert((first + second).map_values(|der: Seq<u8>| entry_of(der)) =~= f + s);
    lemma_present_concat(f, s);
    lemma_present_length(f);
    if forall|i: int| 0 <= i < first.len() ==> x509_certificate(#[trigger] first[i]) is None {
        assert forall|i: int| 0 <= i < f.len() implies (#[trigger] f[i]) is None by {
            assert(x509_certificate(first[i]) is None);
        }
        lemma_present_none(f);
    }
}

/// Items put together.
proof fn lemma_present_concat<T>(first: Seq<Option<T>>, second: Seq<Option<T>>)
    ensures
        present(first + second) == present(first) + present(second),
    decreases second.len(),
{
    if second.len() == 0 {
        assert(first + second =~= first);
        assert(present(first) + present(second) =~= present(first));
    } else {
        lemma_present_concat(first, second.drop_last());
        assert((first + second).drop_last() =~= first + second.drop_last());
        assert((first + second).last() == second.last());
        assert(present(first + second) =~= present(first) + present(second));
    }
}

/// There are no more items there than items.
proof fn lemma_present_length<T>(items: Seq<Option<T>>)
    ensures
        present(items).len() <= items.len(),
    decreases items.len(),
{
    if items.len() > 0 {
        lemma_present_length(items.drop_last());
    }
}

/// Items that are all missing.
proof fn lemma_present_none<T>(items: Seq<Option<T>>)
    requires
        forall|i: int| 0 <= i < items.len() ==> (#[trigger] items[i]) is None,
    ensures
        present(items).len() == 0,
    decreases items.len(),
{
    if items.len() > 0 {
        lemma_present_none(items.drop_last());
        assert(items.last() is None);
    }
}

/// The first assurance level extension decides: whatever stands after it has no say,
/// and extensions without a level before it are passed over.
pub proof fn law_first_assurance_extension_decides(
    before: Seq<ExtensionView>,
    after: Seq<ExtensionView>,
)
    ensures
        assurance_value_of(before + after) == match assurance_value_of(before) {
            Some(value) => Some(value),
            None => assurance_value_of(after),
        },
    decreases before.len(),
{
    if before.len() == 0 {
        assert(before + after =~= after);
    } else {
        law_first_assurance_extension_decides(before.drop_first(), after);
        assert((before + after).drop_first() =~= before.drop_first() + after);
    }
}

/// One extended key usage with the documentSigning purpose is enough, wherever it
/// stands.
pub proof fn law_any_key_usage_decides(first: Seq<ExtensionView>, second: Seq<ExtensionView>)
    ensures
        allows_document_signing(first + second) <==> allows_document_signing(first)
            || allows_document_signing(second),
{
    let both = first + second;
    assert forall|i: int| 0 <= i < first.len() implies both[i] == first[i] by {}
    assert forall|i: int| 0 <= i < second.len() implies both[first.len() + i] == #[trigger] second[i] by {}
    if allows_document_signing(both) {
        let i = choose|i: int|
            0 <= i < both.len() && (#[trigger] both[i].other_purposes matches Some(purposes)
                && purposes.contains(crate::trust_classification::EKU_DOCUMENT_SIGNING@));
        if i < first.len() {
            assert(first[i] == both[i]);
        } else {
            assert(second[i - first.len()] == both[i]);
        }
    }
}

/// The pool has noted a check of exactly this chain at this time: the first certificate as
/// the end entity, and those after it, in order, as the intermediates.
pub open spec fn has_noted(
    policy: CertificateTrustPolicyView,
    chain: Seq<Seq<u8>>,
    signing_time: Option<i64>,
) -> bool {
    exists|i: int|
        #![trigger policy.accepted[i]]
        0 <= i < policy.accepted.len() && checks(policy.accepted[i], chain, signing_time)
}

/// The check is one of exactly this chain at this time.
pub open spec fn checks(
    check: ChainCheckView,
    chain: Seq<Seq<u8>>,
    signing_time: Option<i64>,
) -> bool {
    &&& check.end_entity == chain[0]
    &&& check.signing_time == signing_time
    &&& check.intermediates.len() + 1 == chain.len()
    &&& forall|j: int|
        0 <= j < check.intermediates.len() ==> #[trigger] check.intermediates[j] == chain[j + 1]
}

/// A chain is trusted exactly if it has a certificate, the pool has an anchor, and the pool
/// has noted a check of this chain at this time. So a pool that has noted nothing trusts
/// nothing, however many anchors it has, and how many more anchors it has than one makes no
/// difference.
pub proof fn law_trust_is_a_noted_check(
    policy: CertificateTrustPolicyView,
    chain: Seq<Seq<u8>>,
    signing_time: Option<i64>,
    other: CertificateTrustPolicyView,
)
    ensures
        trusts(policy, chain, signing_time) <==> chain.len() > 0
            && policy.trust_anchor_ders.len() > 0 && has_noted(policy, chain, signing_time),
        policy.accepted.len() == 0 ==> !trusts(policy, chain, signing_time),
        policy.accepted == other.accepted && policy.trust_anchor_ders.len() > 0
            && other.trust_anchor_ders.len() > 0 ==> trusts(policy, chain, signing_time) == trusts(
            other,
            chain,
            signing_time,
        ),
{
    if trusts(policy, chain, signing_time) {
        let check = needed_check(chain, signing_time, policy.trust_anchor_ders)->0;
        let i = choose|i: int| 0 <= i < policy.accepted.len() && policy.accepted[i] == check;
        assert(checks(policy.accepted[i], chain, signing_time));
    }
    if chain.len() > 0 && policy.trust_anchor_ders.len() > 0 && has_noted(
        policy,
        chain,
        signing_time,
    ) {
        let check = needed_check(chain, signing_time, policy.trust_anchor_ders)->0;
        let i = choose|i: int|
            #![trigger policy.accepted[i]]
            0 <= i < policy.accepted.len() && checks(policy.accepted[i], chain, signing_time);
        assert(policy.accepted[i].intermediates =~= check.intermediates);
        assert(policy.accepted[i] == check);
    }
}

/// A check is asked for exactly if the chain has a certificate and the pool an anchor, and
/// it is a check of this chain at this time.
pub proof fn law_check_is_of_the_chain(
    chain: Seq<Seq<u8>>,
    signing_time: Option<i64>,
    anchors: Seq<Seq<u8>>,
)
    ensures
        needed_check(chain, signing_time, anchors) is Some <==> chain.len() > 0 && anchors.len()
            > 0,
        needed_check(chain, signing_time, anchors) matches Some(check) ==> checks(
            check,
            chain,
            signing_time,
        ),
{
}

/// A pool that notes the check that was asked for trusts the chain.
pub proof fn law_noting_the_check_makes_the_chain_trusted(
    policy: CertificateTrustPolicyView,
    chain: Seq<Seq<u8>>,
    signing_time: Option<i64>,
)
    requires
        chain.len() > 0,
        policy.trust_anchor_ders.len() > 0,
    ensures
        needed_check(chain, signing_time, policy.trust_anchor_ders) matches Some(check) && trusts(
            CertificateTrustPolicyView {
                trust_anchor_ders: policy.trust_anchor_ders,
                accepted: policy.accepted.push(check),
            },
            chain,
            signing_time,
        ),
{
    let check = needed_check(chain, signing_time, policy.trust_anchor_ders)->0;
    let noted = policy.accepted.push(check);
    assert(noted[policy.accepted.len() as int] == check);
}

/// `text` is the value with the greatest index among those that are text, or `None` where
/// none is.
pub open spec fn is_last_text(values: Seq<Option<Seq<char>>>, text: Option<Seq<char>>) -> bool {
    match text {
        Some(last) => exists|i: int|
            #![trigger values[i]]
            0 <= i < values.len() && values[i] == Some(last) && (forall|j: int|
                i < j < values.len() ==> (#[trigger] values[j]) is None),
        None => forall|i: int| 0 <= i < values.len() ==> (#[trigger] values[i]) is None,
    }
}

/// The last text among values.
proof fn lemma_last_text(values: Seq<Option<Seq<char>>>)
    ensures
        is_last_text(values, last_present(values)),
    decreases values.len(),
{
    if values.len() > 0 {
        let rest = values.drop_last();
        lemma_last_text(rest);
        match values.last() {
            Some(text) => {
                assert(values[values.len() - 1] == Some(text));
            },
            None => {
                assert(last_present(values) == last_present(rest));
                match last_present(rest) {
                    Some(text) => {
                        let i = choose|i: int|
                            #![trigger rest[i]]
                            0 <= i < rest.len() && rest[i] == Some(text) && (forall|j: int|
                                i < j < rest.len() ==> (#[trigger] rest[j]) is None);
                        assert forall|j: int| i < j < values.len() implies (
                        #[trigger] values[j]) is None by {
                            if j < rest.len() {
                                assert(rest[j] == values[j]);
                            }
                        }
                        assert(values[i] == Some(text));
                    },
                    None => {
                        assert forall|i: int| 0 <= i < values.len() implies (
                        #[trigger] values[i]) is None by {
                            if i < rest.len() {
                                assert(rest[i] == values[i]);
                            }
                        }
                    },
                }
            },
        }
    }
}

/// Each field of a distinguished name is the last text among the values of its own
/// attribute: `None` exactly if none of them is text.
pub proof fn law_name_fields_are_the_last_texts(identity: CertificateIdentityView)
    ensures
        is_last_text(identity.common_names, dn_of(identity).cn),
        is_last_text(identity.organizations, dn_of(identity).o),
        is_last_text(identity.organizational_units, dn_of(identity).ou),
        is_last_text(identity.countries, dn_of(identity).c),
        dn_of(identity).cn is None <==> (forall|i: int|
            0 <= i < identity.common_names.len() ==> (#[trigger] identity.common_names[i]) is None),
        dn_of(identity).o is None <==> (forall|i: int|
            0 <= i < identity.organizations.len() ==> (
            #[trigger] identity.organizations[i]) is None),
        dn_of(identity).ou is None <==> (forall|i: int|
            0 <= i < identity.organizational_units.len() ==> (
            #[trigger] identity.organizational_units[i]) is None),
        dn_of(identity).c is None <==> (forall|i: int|
            0 <= i < identity.countries.len() ==> (#[trigger] identity.countries[i]) is None),
{
    lemma_last_text(identity.common_names);
    lemma_last_text(identity.organizations);
    lemma_last_text(identity.organizational_units);
    lemma_last_text(identity.countries);
}

/// A value after which no other one is text is what the field shows.
pub proof fn law_last_text_is_shown(identity: CertificateIdentityView, i: int, text: Seq<char>)
    ensures
        0 <= i < identity.common_names.len() && identity.common_names[i] == Some(text) && (forall|
            j: int,
        |
            i < j < identity.common_names.len() ==> (#[trigger] identity.common_names[j]) is None)
            ==> dn_of(identity).cn == Some(text),
        0 <= i < identity.organizations.len() && identity.organizations[i] == Some(text) && (forall|
            j: int,
        |
            i < j < identity.organizations.len() ==> (#[trigger] identity.organizations[j]) is None)
            ==> dn_of(identity).o == Some(text),
        0 <= i < identity.organizational_units.len() && identity.organizational_units[i] == Some(
            text,
        ) && (forall|j: int|
            i < j < identity.organizational_units.len() ==> (
            #[trigger] identity.organizational_units[j]) is None) ==> dn_of(identity).ou == Some(
            text,
        ),
        0 <= i < identity.countries.len() && identity.countries[i] == Some(text) && (forall|j: int|
            i < j < identity.countries.len() ==> (#[trigger] identity.countries[j]) is None)
            ==> dn_of(identity).c == Some(text),
{
    law_name_fields_are_the_last_texts(identity);
}

/// No attribute bears on the field of another: names that agree in one attribute agree in
/// its field, whatever the others hold and whenever the certificates end.
pub proof fn law_name_fields_are_independent(a: CertificateIdentityView, b: CertificateIdentityView)
    ensures
        a.common_names == b.common_names ==> dn_of(a).cn == dn_of(b).cn,
        a.organizations == b.organizations ==> dn_of(a).o == dn_of(b).o,
        a.organizational_units == b.organizational_units ==> dn_of(a).ou == dn_of(b).ou,
        a.countries == b.countries ==> dn_of(a).c == dn_of(b).c,
{
}

/// `kept` holds the items that are there, each once and in order: `at` gives the place of
/// each among `items`.
pub open spec fn keeps<T>(items: Seq<Option<T>>, at: Seq<int>, kept: Seq<T>) -> bool {
    &&& at.len() == kept.len()
    &&& forall|k: int|
        0 <= k < at.len() ==> 0 <= #[trigger] at[k] < items.len() && items[at[k]] == Some(kept[k])
    &&& forall|j: int, k: int| 0 <= j < k < at.len() ==> #[trigger] at[j] < #[trigger] at[k]
    &&& forall|i: int| 0 <= i < items.len() && (#[trigger] items[i]) is Some ==> at.contains(i)
}

/// Where the items that are there stand.
proof fn lemma_keeps<T>(items: Seq<Option<T>>) -> (at: Seq<int>)
    ensures
        keeps(items, at, present(items)),
    decreases items.len(),
{
    if items.len() == 0 {
        Seq::empty()
    } else {
        let rest = items.drop_last();
        let before = lemma_keeps(rest);
        let last: int = items.len() - 1;
        match items.last() {
            Some(item) => {
                let at = before.push(last);
                let kept = present(items);
                assert(kept == present(rest).push(item));
                assert forall|k: int| 0 <= k < at.len() implies 0 <= #[trigger] at[k] < items.len()
                    && items[at[k]] == Some(kept[k]) by {
                    if k < before.len() {
                        assert(at[k] == before[k]);
                        assert(rest[before[k]] == items[before[k]]);
                    }
                }
                assert forall|j: int, k: int| 0 <= j < k < at.len() implies #[trigger] at[j]
                    < #[trigger] at[k] by {
                    assert(at[j] == before[j]);
                    if k < before.len() {
                        assert(at[k] == before[k]);
                    }
                }
                assert forall|i: int|
                    0 <= i < items.len() && (
                    #[trigger] items[i]) is Some implies at.contains(i) by {
                    if i < last {
                        assert(rest[i] == items[i]);
                        let k = choose|k: int| 0 <= k < before.len() && before[k] == i;
                        assert(at[k] == i);
                    } else {
                        assert(at[before.len() as int] == i);
                    }
                }
                at
            },
            None => {
                assert forall|i: int|
                    0 <= i < items.len() && (
                    #[trigger] items[i]) is Some implies before.contains(i) by {
                    assert(rest[i] == items[i]);
                }
                assert forall|k: int| 0 <= k < before.len() implies 0 <= #[trigger] before[k]
                    < items.len() && items[before[k]] == Some(present(items)[k]) by {
                    assert(rest[before[k]] == items[before[k]]);
                }
                before
            },
        }
    }
}

/// Leaving out what is missing keeps every item that is there, once and in order, and
/// nothing else.
pub proof fn law_what_is_there_is_kept<T>(items: Seq<Option<T>>)
    ensures
        exists|at: Seq<int>| #[trigger] keeps(items, at, present(items)),
{
    let at = lemma_keeps(items);
}

/// The chain that PEM text holds is made of its well-formed blocks: each of them once, in
/// the order of the text, and nothing else.
pub proof fn law_chain_is_the_intact_blocks(pem: Seq<u8>)
    ensures
        exists|at: Seq<int>| #[trigger] keeps(pem_blocks(pem), at, der_chain(pem)),
{
    let at = lemma_keeps(pem_blocks(pem));
    assert(keeps(pem_blocks(pem), at, der_chain(pem)));
}

/// The entry tells of the certificate: the last text of each name attribute, and the end of
/// its validity.
pub open spec fn tells_of(entry: ChainEntryView, certificate: CertificateView) -> bool {
    &&& is_last_text(certificate.identity.common_names, entry.dn.cn)
    &&& is_last_text(certificate.identity.organizations, entry.dn.o)
    &&& is_last_text(certificate.identity.organizational_units, entry.dn.ou)
    &&& is_last_text(certificate.identity.countries, entry.dn.c)
    &&& entry.valid_until == utc_rfc3339(certificate.identity.not_after)
}

/// There is an entry for bytes exactly if they hold a certificate, and it tells of that
/// certificate.
pub proof fn law_entry_tells_of_the_certificate(der: Seq<u8>)
    ensures
        entry_of(der) is Some <==> x509_certificate(der) is Some,
        x509_certificate(der) matches Some(certificate) ==> (entry_of(der) matches Some(entry)
            && tells_of(entry, certificate)),
{
    if let Some(certificate) = x509_certificate(der) {
        law_name_fields_are_the_last_texts(certificate.identity);
    }
}

/// The entries tell of the certificates of the chain: `at` gives the place in the chain of
/// the certificate that each tells of, and every certificate of the chain has its entry.
pub open spec fn tell_of_chain(
    entries: Seq<ChainEntryView>,
    at: Seq<int>,
    chain: Seq<Seq<u8>>,
) -> bool {
    &&& at.len() == entries.len()
    &&& forall|k: int|
        0 <= k < at.len() ==> 0 <= #[trigger] at[k] < chain.len() && (x509_certificate(
            chain[at[k]],
        ) matches Some(certificate) && tells_of(entries[k], certificate))
    &&& forall|j: int, k: int| 0 <= j < k < at.len() ==> #[trigger] at[j] < #[trigger] at[k]
    &&& forall|i: int|
        0 <= i < chain.len() && x509_certificate(#[trigger] chain[i]) is Some ==> at.contains(i)
}

/// A chain has one entry for each of its certificates that can be read, in the order of the
/// chain, and each tells of its own certificate.
pub proof fn law_entries_tell_of_the_chain(chain: Seq<Seq<u8>>)
    ensures
        exists|at: Seq<int>| #[trigger] tell_of_chain(entries_of(chain), at, chain),
{
    let items = chain.map_values(|der: Seq<u8>| entry_of(der));
    let entries = entries_of(chain);
    let at = lemma_keeps(items);
    assert forall|k: int| 0 <= k < at.len() implies 0 <= #[trigger] at[k] < chain.len() && (
    x509_certificate(chain[at[k]]) matches Some(certificate) && tells_of(
        entries[k],
        certificate,
    )) by {
        assert(items[at[k]] == entry_of(chain[at[k]]));
        law_entry_tells_of_the_certificate(chain[at[k]]);
    }
    assert forall|i: int|
        0 <= i < chain.len() && x509_certificate(
            #[trigger] chain[i],
        ) is Some implies at.contains(i) by {
        law_entry_tells_of_the_certificate(chain[i]);
        assert(items[i] == entry_of(chain[i]));
    }
    assert(tell_of_chain(entries, at, chain));
}

/// The text starts with the prefix, character by character.
pub open spec fn begins_with(text: Seq<char>, prefix: Seq<char>) -> bool {
    &&& prefix.len() <= text.len()
    &&& forall|j: int| 0 <= j < prefix.len() ==> text[j] == #[trigger] prefix[j]
}

/// The extension gives a C2PA assurance level.
pub open spec fn gives_level(extension: ExtensionView) -> bool {
    begins_with(extension.oid, "1.3.6.1.4.1.62558.3"@)
}

/// The extension at `i` is the first that gives a C2PA assurance level.
pub open spec fn gives_level_first(extensions: Seq<ExtensionView>, i: int) -> bool {
    &&& 0 <= i < extensions.len()
    &&& gives_level(extensions[i])
    &&& forall|j: int| 0 <= j < i ==> !gives_level(#[trigger] extensions[j])
}

/// The assurance level is read from the first extension that gives one, wherever it stands
/// among the extensions, and from none if there is no such extension.
pub proof fn law_level_is_read_from_the_first(extensions: Seq<ExtensionView>, i: int)
    ensures
        gives_level_first(extensions, i) ==> assurance_value_of(extensions) == Some(
            extensions[i].value,
        ),
        assurance_value_of(extensions) is None <==> (forall|j: int|
            0 <= j < extensions.len() ==> !gives_level(#[trigger] extensions[j])),
    decreases extensions.len(),
{
    if extensions.len() > 0 {
        let prefix = "1.3.6.1.4.1.62558.3"@;
        let first = extensions[0];
        let rest = extensions.drop_first();
        law_level_is_read_from_the_first(rest, i - 1);
        assert(prefix.is_prefix_of(first.oid) == gives_level(first)) by {
            if prefix.is_prefix_of(first.oid) {
                assert forall|j: int| 0 <= j < prefix.len() implies first.oid[j]
                    == #[trigger] prefix[j] by {
                    assert(first.oid.subrange(0, prefix.len() as int)[j] == first.oid[j]);
                }
            }
            if gives_level(first) {
                assert(prefix =~= first.oid.subrange(0, prefix.len() as int));
            }
        }
        assert forall|j: int| 0 <= j < rest.len() implies rest[j] == #[trigger] extensions[j
            + 1] by {}
        if gives_level_first(extensions, i) {
            if i > 0 {
                assert(!gives_level(extensions[0]));
                assert forall|j: int| 0 <= j < i - 1 implies !gives_level(#[trigger] rest[j]) by {
                    assert(rest[j] == extensions[j + 1]);
                }
                assert(gives_level_first(rest, i - 1));
            }
        }
        if forall|j: int| 0 <= j < extensions.len() ==> !gives_level(#[trigger] extensions[j]) {
            assert(!gives_level(extensions[0]));
            assert forall|j: int| 0 <= j < rest.len() implies !gives_level(#[trigger] rest[j]) by {
                assert(rest[j] == extensions[j + 1]);
            }
        }
        if assurance_value_of(extensions) is None {
            assert forall|j: int| 0 <= j < extensions.len() implies !gives_level(
                #[trigger] extensions[j],
            ) by {
                if j > 0 {
                    assert(rest[j - 1] == extensions[j]);
                }
            }
        }
    }
}

/// The code of a level: level 2 and level 1 each for exactly their own object identifier,
/// and unknown for every other one, and for none.
pub proof fn law_code_of_each_level(level: Option<Seq<char>>)
    ensures
        code_of_level(level) == "openprov.trust.c2pa.level-2"@ <==> level == Some(
            "1.3.6.1.4.1.62558.3.20"@,
        ),
        code_of_level(level) == "openprov.trust.c2pa.level-1"@ <==> level == Some(
            "1.3.6.1.4.1.62558.3.10"@,
        ),
        code_of_level(level) == "openprov.trust.unknown"@ <==> level != Some(
            "1.3.6.1.4.1.62558.3.20"@,
        ) && level != Some("1.3.6.1.4.1.62558.3.10"@),
{
    reveal_strlit("1.3.6.1.4.1.62558.3.20");
    reveal_strlit("1.3.6.1.4.1.62558.3.10");
    assert("1.3.6.1.4.1.62558.3.20"@[20] == '2' && "1.3.6.1.4.1.62558.3.10"@[20] == '1');
    law_codes_are_distinct();
    let codes = seq![
        TRUST_C2PA_LEVEL_2@,
        TRUST_C2PA_LEVEL_1@,
        TRUST_C2PA_INTERIM@,
        TRUST_CAWG_INTERIM@,
        TRUST_UNKNOWN@,
    ];
    assert(codes[0] != codes[1] && codes[0] != codes[4] && codes[1] != codes[4]);
}

/// The trust code of a trusted leaf: that of the level which its first assurance level
/// extension gives, and unknown if it has no such extension or cannot be read.
pub proof fn law_assurance_of_a_leaf(leaf: Seq<u8>, certificate: CertificateView, i: int)
    ensures
        x509_certificate(leaf) is None ==> assurance_of(leaf) == "openprov.trust.unknown"@,
        x509_certificate(leaf) == Some(certificate) && gives_level_first(certificate.extensions, i)
            ==> {
            let level = der_oid(certificate.extensions[i].value);
            &&& assurance_of(leaf) == "openprov.trust.c2pa.level-2"@ <==> level == Some(
                "1.3.6.1.4.1.62558.3.20"@,
            )
            &&& assurance_of(leaf) == "openprov.trust.c2pa.level-1"@ <==> level == Some(
                "1.3.6.1.4.1.62558.3.10"@,
            )
            &&& assurance_of(leaf) == "openprov.trust.unknown"@ <==> level != Some(
                "1.3.6.1.4.1.62558.3.20"@,
            ) && level != Some("1.3.6.1.4.1.62558.3.10"@)
        },
        x509_certificate(leaf) == Some(certificate) && (forall|j: int|
            0 <= j < certificate.extensions.len() ==> !gives_level(
                #[trigger] certificate.extensions[j],
            )) ==> assurance_of(leaf) == "openprov.trust.unknown"@,
{
    if x509_certificate(leaf) == Some(certificate) {
        law_level_is_read_from_the_first(certificate.extensions, i);
        if 0 <= i < certificate.extensions.len() {
            law_code_of_each_level(der_oid(certificate.extensions[i].value));
        }
    }
}

/// The extension lists the documentSigning purpose.
pub open spec fn lists_document_signing(extension: ExtensionView) -> bool {
    extension.other_purposes matches Some(purposes) && exists|k: int|
        0 <= k < purposes.len() && #[trigger] purposes[k] == "1.3.6.1.5.5.7.3.36"@
}

/// Extensions allow document signing exactly if one of them, at whatever place, lists the
/// purpose, at whatever place.
pub proof fn law_any_listing_allows_document_signing(extensions: Seq<ExtensionView>)
    ensures
        allows_document_signing(extensions) <==> exists|i: int|
            0 <= i < extensions.len() && lists_document_signing(#[trigger] extensions[i]),
{
    if allows_document_signing(extensions) {
        let i = choose|i: int|
            0 <= i < extensions.len() && (#[trigger] extensions[i].other_purposes matches Some(
                purposes,
            ) && purposes.contains("1.3.6.1.5.5.7.3.36"@));
        assert(lists_document_signing(extensions[i]));
    }
    if exists|i: int| 0 <= i < extensions.len() && lists_document_signing(#[trigger] extensions[i]) {
        let i = choose|i: int|
            0 <= i < extensions.len() && lists_document_signing(#[trigger] extensions[i]);
        assert(extensions[i].other_purposes->0.contains("1.3.6.1.5.5.7.3.36"@));
    }
}

/// A leaf is meant for document signing exactly if it is a certificate and one of its
/// extensions, at whatever place, lists the purpose.
pub proof fn law_document_signer_by_any_extension(leaf: Seq<u8>)
    ensures
        is_document_signer(leaf) <==> (x509_certificate(leaf) matches Some(certificate) && exists|
            i: int,
        |
            0 <= i < certificate.extensions.len() && lists_document_signing(
                #[trigger] certificate.extensions[i],
            )),
{
    if let Some(certificate) = x509_certificate(leaf) {
        law_any_listing_allows_document_signing(certificate.extensions);
    }
}

/// What a classification says, part by part. The manifest keeps its label. The claim has the
/// entries of the signing chain, the code of the leaf's assurance level exactly where the
/// C2PA pool has an anchor and has noted a check of the chain, and otherwise the unknown
/// code. Its time stamp is classified by the time-stamping chain and the CTSA pool. Each
/// identity assertion keeps its label and has the entries of its own chain, the interim code
/// exactly if an extension of its leaf lists document signing, and no time stamp.
pub proof fn law_classification_part_by_part(
    label: Seq<char>,
    signing_pem: Seq<u8>,
    tsa_pem: Seq<u8>,
    signing_time: Option<i64>,
    c2pa: CertificateTrustPolicyView,
    ctsa: CertificateTrustPolicyView,
    assertions: Seq<(Seq<char>, Seq<u8>)>,
    i: int,
)
    ensures
        ({
            let classification = classification_of(
                label,
                signing_pem,
                tsa_pem,
                signing_time,
                c2pa,
                ctsa,
                assertions,
            );
            let signing = der_chain(signing_pem);
            let tsa = der_chain(tsa_pem);
            &&& classification.label == label
            &&& classification.claim.chain == entries_of(signing)
            &&& classification.claim.trust == (if signing.len() > 0 && c2pa.trust_anchor_ders.len()
                > 0 && has_noted(c2pa, signing, signing_time) {
                assurance_of(signing[0])
            } else {
                "openprov.trust.unknown"@
            })
            &&& classification.claim.timestamp == (if tsa.len() == 0 {
                "openprov.timestamp.none"@
            } else if ctsa.trust_anchor_ders.len() > 0 && has_noted(ctsa, tsa, signing_time) {
                "openprov.timestamp.trusted"@
            } else {
                "openprov.timestamp.unknown"@
            })
            &&& classification.identities.len() == assertions.len()
            &&& 0 <= i < assertions.len() ==> {
                let chain = der_chain(assertions[i].1);
                let entry = classification.identities[i];
                &&& entry.label == assertions[i].0
                &&& entry.result.chain == entries_of(chain)
                &&& entry.result.timestamp == "openprov.timestamp.none"@
                &&& entry.result.trust == (if chain.len() > 0 && (x509_certificate(
                    chain[0],
                ) matches Some(certificate) && exists|k: int|
                    0 <= k < certificate.extensions.len() && lists_document_signing(
                        #[trigger] certificate.extensions[k],
                    )) {
                    "openprov.trust.cawg.interim"@
                } else {
                    "openprov.trust.unknown"@
                })
            }
        }),
{
    law_trust_is_a_noted_check(c2pa, der_chain(signing_pem), signing_time, c2pa);
    law_trust_is_a_noted_check(ctsa, der_chain(tsa_pem), signing_time, ctsa);
    if 0 <= i < assertions.len() {
        let chain = der_chain(assertions[i].1);
        if chain.len() > 0 {
            law_document_signer_by_any_extension(chain[0]);
        }
    }
}

} // verus!
