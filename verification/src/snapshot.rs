//! The snapshot manager: serializes a fully-initialized isolate heap built
//! from a registry under a deny-all capability authority, and pairs the
//! result with the registry's fingerprint so a later start can check
//! compatibility bit for bit.

use vstd::prelude::*;
use vstd::slice::slice_to_vec;
use vstd::utf8::encode_utf8;
use crate::capability::{CapabilityAuthority, CapabilityDecision, unreachable_context_reason};
use crate::codec::{
    ImageError, decode_sections, encode_sections, le32, le32_val, lemma_decode_encode,
    lemma_le32_round_trip, push_le32, read_le32, spec_decode, spec_encode,
};
use crate::registry::{
    ExtensionDescriptor, ValidatedRegistry, collect_sources, spec_bindings, spec_fingerprint,
};

verus! {

/// A pre-initialized isolate heap: the global bindings baked in at build
/// time, together with the exact ordered extension-name list (the
/// fingerprint) of the registry that produced it. An isolate may be
/// rehydrated from it only under a registry with an identical fingerprint.
pub struct Snapshot {
    pub fingerprint: Vec<String>,
    pub bindings: Vec<String>,
}

/// Snapshot construction failure: some extension touched a privileged
/// operation while the deny-all authority was in force.
#[derive(Debug)]
pub enum BuildError {
    PrivilegedTouch { extension: String, reason: String },
}

/// No extension's script-side initialization issues a privileged request;
/// exactly then a snapshot build succeeds.
pub open spec fn build_clean(descs: Seq<ExtensionDescriptor>) -> bool {
    forall|i: int| 0 <= i < descs.len() ==> (#[trigger] descs[i]).init_requests@.len() == 0
}

/// Index of the first descriptor whose initialization touches a
/// privileged operation, scanning from `i`; the length when none does.
pub open spec fn first_privileged_from(descs: Seq<ExtensionDescriptor>, i: int) -> int
    decreases descs.len() - i,
    when 0 <= i <= descs.len()
{
    if i >= descs.len() {
        descs.len() as int
    } else if descs[i].init_requests@.len() > 0 {
        i
    } else {
        first_privileged_from(descs, i + 1)
    }
}

pub open spec fn first_privileged(descs: Seq<ExtensionDescriptor>) -> int {
    first_privileged_from(descs, 0)
}

proof fn lemma_first_privileged_from_is(descs: Seq<ExtensionDescriptor>, lo: int, i: int)
    requires
        0 <= lo <= i < descs.len(),
        forall|j: int| lo <= j < i ==> (#[trigger] descs[j]).init_requests@.len() == 0,
        descs[i].init_requests@.len() > 0,
    ensures
        first_privileged_from(descs, lo) == i,
    decreases i - lo,
{
    if lo < i {
        lemma_first_privileged_from_is(descs, lo + 1, i);
    }
}

/// Drives a full cold initialization of a throwaway isolate under a
/// deny-all capability authority and serializes the resulting heap state.
/// Any privileged touch during build surfaces as the deny-all authority's
/// "unreachable in this context" error and fails the build; writing the
/// result to disk is the caller's input/output step.
pub fn build(registry: &ValidatedRegistry) -> (r: Result<Snapshot, BuildError>)
    ensures
        r is Ok <==> build_clean(registry@),
        r matches Ok(s) ==> s.fingerprint.deep_view() == spec_fingerprint(registry@)
            && s.bindings.deep_view() == spec_bindings(registry@),
        r matches Err(e) ==> {
            let p = first_privileged(registry@);
            &&& 0 <= p < registry@.len()
            &&& e matches BuildError::PrivilegedTouch { extension, reason }
            &&& extension@ == registry@[p].name@
            &&& reason@ == unreachable_context_reason()
        },
{
    let authority = CapabilityAuthority::DenyAll;
    let descs = registry.descriptors();
    let mut i: usize = 0;
    while i < descs.len()
        invariant
            i <= descs@.len(),
            descs@ == registry@,
            authority == CapabilityAuthority::DenyAll,
            forall|j: int| 0 <= j < i ==> (#[trigger] descs@[j]).init_requests@.len() == 0,
        decreases descs@.len() - i,
    {
        if descs[i].init_requests.len() > 0 {
            let decision = authority.decide(&descs[i].init_requests[0]);
            proof {
                lemma_first_privileged_from_is(descs@, 0, i as int);
            }
            let ghost gdec = decision;
            match decision {
                CapabilityDecision::Deny { reason } => {
                    return Err(BuildError::PrivilegedTouch {
                        extension: descs[i].name.clone(),
                        reason,
                    });
                },
                CapabilityDecision::Allow => {
                    proof {
                        assert(gdec is Allow);
                        assert(authority.decision_for(gdec));
                        assert(!authority.spec_allows());
                        assert(false);
                    }
                    return vstd::pervasive::unreached();
                },
            }
        }
        i += 1;
    }
    Ok(Snapshot { fingerprint: registry.fingerprint(), bindings: collect_sources(descs) })
}

/// Reconstructs a snapshot from its recorded parts, exactly as read back
/// from storage. Compatibility with a registry is not checked here: that
/// is the runtime bootstrapper's responsibility at isolate construction.
pub fn load(fingerprint: Vec<String>, bindings: Vec<String>) -> (s: Snapshot)
    ensures
        s.fingerprint@ == fingerprint@,
        s.bindings@ == bindings@,
{
    Snapshot { fingerprint, bindings }
}

/// Bit-for-bit agreement of two ordered name lists.
pub open spec fn fingerprints_match(a: Seq<Seq<char>>, b: Seq<Seq<char>>) -> bool {
    a == b
}

/// Compares a snapshot's recorded fingerprint against a registry's own,
/// entry by entry.
pub fn fingerprint_matches(snapshot_fp: &Vec<String>, registry_fp: &Vec<String>) -> (r: bool)
    ensures
        r == fingerprints_match(snapshot_fp.deep_view(), registry_fp.deep_view()),
{
    if snapshot_fp.len() != registry_fp.len() {
        proof {
            assert(snapshot_fp.deep_view().len() != registry_fp.deep_view().len());
        }
        return false;
    }
    let n = snapshot_fp.len();
    let mut i: usize = 0;
    while i < n
        invariant
            i <= n,
            n == snapshot_fp@.len() == registry_fp@.len(),
            forall|j: int| 0 <= j < i ==> #[trigger] snapshot_fp@[j]@ == registry_fp@[j]@,
        decreases n - i,
    {
        if snapshot_fp[i] != registry_fp[i] {
            proof {
                assert(snapshot_fp.deep_view()[i as int] != registry_fp.deep_view()[i as int]);
            }
            return false;
        }
        i += 1;
    }
    proof {
        assert(snapshot_fp.deep_view() =~= registry_fp.deep_view());
    }
    true
}

/// The byte sections of a snapshot image: one four-byte section holding
/// the fingerprint entry count, then each fingerprint name UTF-8
/// encoded, then each baked binding fragment UTF-8 encoded.
pub open spec fn spec_image_sections(
    fp: Seq<Seq<char>>,
    bindings: Seq<Seq<char>>,
) -> Seq<Seq<u8>> {
    seq![le32(fp.len() as u32)] + Seq::new(fp.len(), |i: int| encode_utf8(fp[i])) + Seq::new(
        bindings.len(),
        |i: int| encode_utf8(bindings[i]),
    )
}

/// A snapshot image read back from storage, still at the byte level:
/// the recorded fingerprint entries and binding fragments as the exact
/// UTF-8 bytes that were written.
pub struct RawSnapshot {
    pub fingerprint: Vec<Vec<u8>>,
    pub bindings: Vec<Vec<u8>>,
}

/// Serializes a snapshot into its one-file image. Deleting any previous
/// file and writing these bytes is the caller's input/output step.
pub fn snapshot_image(s: &Snapshot) -> (out: Vec<u8>)
    requires
        1 + s.fingerprint@.len() + s.bindings@.len() <= 0xffff_ffff,
        forall|i: int|
            0 <= i < s.fingerprint@.len() ==> encode_utf8(
                (#[trigger] s.fingerprint@[i])@,
            ).len() <= 0xffff_ffff,
        forall|i: int|
            0 <= i < s.bindings@.len() ==> encode_utf8((#[trigger] s.bindings@[i])@).len()
                <= 0xffff_ffff,
    ensures
        out@ == spec_encode(
            spec_image_sections(s.fingerprint.deep_view(), s.bindings.deep_view()),
        ),
{
    let ghost fpv = s.fingerprint.deep_view();
    let ghost bv = s.bindings.deep_view();
    let ghost fpsecs = Seq::new(fpv.len(), |i: int| encode_utf8(fpv[i]));
    let ghost bsecs = Seq::new(bv.len(), |i: int| encode_utf8(bv[i]));
    let mut sections: Vec<Vec<u8>> = Vec::new();
    let mut header: Vec<u8> = Vec::new();
    push_le32(&mut header, s.fingerprint.len() as u32);
    proof {
        assert(header@ =~= le32(fpv.len() as u32));
    }
    sections.push(header);
    proof {
        assert(sections.deep_view() =~~= seq![le32(fpv.len() as u32)] + fpsecs.take(0));
    }
    let mut i: usize = 0;
    while i < s.fingerprint.len()
        invariant
            i <= fpv.len(),
            fpv == s.fingerprint.deep_view(),
            fpsecs == Seq::new(fpv.len(), |j: int| encode_utf8(fpv[j])),
            sections.deep_view() == seq![le32(fpv.len() as u32)] + fpsecs.take(i as int),
        decreases fpv.len() - i,
    {
        let ghost before = sections.deep_view();
        sections.push(slice_to_vec(s.fingerprint[i].as_str().as_bytes()));
        proof {
            assert(sections.deep_view() =~~= before.push(encode_utf8(fpv[i as int])));
            assert(before.push(encode_utf8(fpv[i as int])) =~= seq![le32(fpv.len() as u32)]
                + fpsecs.take(i as int + 1));
        }
        i += 1;
    }
    let mut k: usize = 0;
    while k < s.bindings.len()
        invariant
            k <= bv.len(),
            fpv == s.fingerprint.deep_view(),
            bv == s.bindings.deep_view(),
            fpsecs == Seq::new(fpv.len(), |j: int| encode_utf8(fpv[j])),
            bsecs == Seq::new(bv.len(), |j: int| encode_utf8(bv[j])),
            sections.deep_view() == seq![le32(fpv.len() as u32)] + fpsecs + bsecs.take(k as int),
        decreases bv.len() - k,
    {
        let ghost before = sections.deep_view();
        sections.push(slice_to_vec(s.bindings[k].as_str().as_bytes()));
        proof {
            assert(sections.deep_view() =~~= before.push(encode_utf8(bv[k as int])));
            assert(before.push(encode_utf8(bv[k as int])) =~= seq![le32(fpv.len() as u32)]
                + fpsecs + bsecs.take(k as int + 1));
        }
        k += 1;
    }
    proof {
        assert(fpsecs.take(fpv.len() as int) =~= fpsecs);
        assert(bsecs.take(bv.len() as int) =~= bsecs);
        assert(sections.deep_view() =~= spec_image_sections(fpv, bv));
        assert(sections.deep_view() == spec_image_sections(fpv, bv));
        assert forall|j: int| 0 <= j < sections@.len() implies (
        #[trigger] sections@[j])@.len() <= 0xffff_ffff by {
            assert(sections@[j]@ == sections.deep_view()[j]);
        }
    }
    encode_sections(&sections)
}

/// What an image holds, when it is well formed: the fingerprint byte
/// sections and the binding byte sections, split at the recorded count.
pub open spec fn spec_parse_image(bytes: Seq<u8>) -> Option<(Seq<Seq<u8>>, Seq<Seq<u8>>)> {
    match spec_decode(bytes) {
        None => None,
        Some(secs) => {
            if secs.len() < 1 || secs[0].len() != 4 {
                None
            } else {
                let k = le32_val(secs[0]) as int;
                if secs.len() - 1 < k {
                    None
                } else {
                    Some((secs.subrange(1, k + 1), secs.subrange(k + 1, secs.len() as int)))
                }
            }
        },
    }
}

/// Reads a snapshot image back into its recorded parts. Exactly the
/// images that [`snapshot_image`] writes are accepted; anything
/// truncated, padded or miscounted is rejected.
pub fn parse_snapshot_image(bytes: &Vec<u8>) -> (r: Result<RawSnapshot, ImageError>)
    ensures
        r matches Ok(raw) ==> spec_parse_image(bytes@) == Some(
            (raw.fingerprint.deep_view(), raw.bindings.deep_view()),
        ),
        r is Err ==> spec_parse_image(bytes@) is None,
{
    let sections = match decode_sections(bytes) {
        Ok(sections) => sections,
        Err(e) => {
            return Err(e);
        },
    };
    let ghost secs = sections.deep_view();
    if sections.len() == 0 {
        return Err(ImageError::Malformed);
    }
    if sections[0].len() != 4 {
        proof {
            assert(secs[0].len() != 4);
        }
        return Err(ImageError::Malformed);
    }
    let k = read_le32(&sections[0], 0) as usize;
    proof {
        assert(sections@[0]@ =~= secs[0]);
        assert(sections@[0]@.subrange(0, 4) =~= secs[0]);
        assert(k as u32 == le32_val(secs[0]));
    }
    if sections.len() - 1 < k {
        return Err(ImageError::Malformed);
    }
    let fp_end = k + 1;
    let mut fingerprint: Vec<Vec<u8>> = Vec::new();
    let mut i: usize = 1;
    while i < fp_end
        invariant
            1 <= i <= fp_end,
            fp_end == k + 1,
            fp_end <= sections@.len(),
            secs == sections.deep_view(),
            fingerprint.deep_view() == secs.subrange(1, i as int),
        decreases fp_end - i,
    {
        let ghost before = fingerprint.deep_view();
        fingerprint.push(sections[i].clone());
        proof {
            assert(fingerprint.deep_view() =~~= before.push(secs[i as int]));
            assert(before.push(secs[i as int]) =~= secs.subrange(1, i as int + 1));
        }
        i += 1;
    }
    let mut bindings: Vec<Vec<u8>> = Vec::new();
    let mut j: usize = k + 1;
    while j < sections.len()
        invariant
            k + 1 <= j <= sections@.len(),
            secs == sections.deep_view(),
            bindings.deep_view() == secs.subrange(k as int + 1, j as int),
        decreases sections@.len() - j,
    {
        let ghost before = bindings.deep_view();
        bindings.push(sections[j].clone());
        proof {
            assert(bindings.deep_view() =~~= before.push(secs[j as int]));
            assert(before.push(secs[j as int]) =~= secs.subrange(k as int + 1, j as int + 1));
        }
        j += 1;
    }
    Ok(RawSnapshot { fingerprint, bindings })
}

/// File-image round trip: parsing the image written for a snapshot
/// yields exactly the UTF-8 bytes of its fingerprint names and binding
/// fragments -- nothing lost, reordered or misattributed between the
/// two parts.
#[verifier::rlimit(100)]
pub proof fn lemma_image_round_trip(fp: Seq<Seq<char>>, bindings: Seq<Seq<char>>)
    requires
        1 + fp.len() + bindings.len() <= 0xffff_ffff,
        forall|i: int| 0 <= i < fp.len() ==> encode_utf8(#[trigger] fp[i]).len() <= 0xffff_ffff,
        forall|i: int|
            0 <= i < bindings.len() ==> encode_utf8(#[trigger] bindings[i]).len() <= 0xffff_ffff,
    ensures
        spec_parse_image(spec_encode(spec_image_sections(fp, bindings))) == Some(
            (
                Seq::new(fp.len(), |i: int| encode_utf8(fp[i])),
                Seq::new(bindings.len(), |i: int| encode_utf8(bindings[i])),
            ),
        ),
{
    let fpsecs = Seq::new(fp.len(), |i: int| encode_utf8(fp[i]));
    let bsecs = Seq::new(bindings.len(), |i: int| encode_utf8(bindings[i]));
    let secs = spec_image_sections(fp, bindings);
    assert(secs == seq![le32(fp.len() as u32)] + fpsecs + bsecs);
    assert(secs.len() == 1 + fp.len() + bindings.len());
    assert(secs[0] == le32(fp.len() as u32));
    assert forall|i: int| 0 <= i < secs.len() implies (#[trigger] secs[i]).len()
        <= 0xffff_ffff by {
        if i == 0 {
            assert(secs[0] == le32(fp.len() as u32));
        } else if i <= fp.len() {
            assert(secs[i] == fpsecs[i - 1]);
            assert(fpsecs[i - 1] == encode_utf8(fp[i - 1]));
        } else {
            assert(secs[i] == bsecs[i - 1 - fp.len()]);
            assert(bsecs[i - 1 - fp.len()] == encode_utf8(bindings[i - 1 - fp.len()]));
        }
    }
    lemma_decode_encode(secs);
    lemma_le32_round_trip(fp.len() as u32);
    assert(le32_val(secs[0]) as int == fp.len());
    assert(secs.subrange(1, fp.len() as int + 1) =~= fpsecs) by {
        assert forall|i: int| 0 <= i < fp.len() implies secs.subrange(1, fp.len() as int + 1)[i]
            == fpsecs[i] by {
            assert(secs[i + 1] == fpsecs[i]);
        }
    }
    assert(secs.subrange(fp.len() as int + 1, secs.len() as int) =~= bsecs) by {
        assert forall|i: int| 0 <= i < bindings.len() implies secs.subrange(
            fp.len() as int + 1,
            secs.len() as int,
        )[i] == bsecs[i] by {
            assert(secs[fp.len() as int + 1 + i] == bsecs[i]);
        }
    }
}

/// The byte-level fingerprint in an image is as exact as the name-level
/// one: two name lists have equal UTF-8 encodings exactly when they are
/// the same names.
pub proof fn lemma_utf8_fingerprint_exact(a: Seq<char>, b: Seq<char>)
    ensures
        (encode_utf8(a) == encode_utf8(b)) <==> (a == b),
{
    if encode_utf8(a) == encode_utf8(b) {
        vstd::utf8::encode_utf8_decode_utf8(a);
        vstd::utf8::encode_utf8_decode_utf8(b);
    }
}

} // verus!
