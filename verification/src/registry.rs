//! The extension registry: an ordered list of extension descriptors,
//! validated so that every descriptor's dependencies appear earlier in the
//! list (dependency-before-dependent). Composition walks the sequence once
//! and fails fatally on the first descriptor whose dependency is not yet
//! satisfied.

use vstd::prelude::*;
use crate::capability::CapabilityRequest;

verus! {

/// One capability module: its identity, the extensions that must
/// initialize before it, its script-side source fragments (empty when a
/// snapshot supplies them), the native operations it registers, and the
/// privileged requests its script-side initialization issues.
pub struct ExtensionDescriptor {
    pub name: String,
    /// Names of extensions that must have registered earlier.
    pub deps: Vec<String>,
    /// Script-side source fragments, evaluated in order on a cold start.
    pub sources: Vec<String>,
    /// Native operation names registered whether or not a snapshot is used.
    pub op_names: Vec<String>,
    /// Privileged requests issued while the script-side sources evaluate.
    /// Under the deny-all authority of a snapshot build, any entry here
    /// makes the build fail.
    pub init_requests: Vec<CapabilityRequest>,
}

/// Dependency `dep` is satisfied before position `i`: some earlier
/// descriptor carries that name.
pub open spec fn dep_satisfied_before(
    descs: Seq<ExtensionDescriptor>,
    i: int,
    dep: Seq<char>,
) -> bool {
    exists|j: int| 0 <= j < i && #[trigger] descs[j].name@ == dep
}

/// Every dependency of the descriptor at position `i` is satisfied by an
/// earlier descriptor.
pub open spec fn descriptor_deps_ok(descs: Seq<ExtensionDescriptor>, i: int) -> bool {
    forall|k: int|
        0 <= k < descs[i].deps@.len() ==> dep_satisfied_before(
            descs,
            i,
            #[trigger] descs[i].deps@[k]@,
        )
}

/// The whole sequence is in a valid initialization order.
pub open spec fn ordering_ok(descs: Seq<ExtensionDescriptor>) -> bool {
    forall|i: int| 0 <= i < descs.len() ==> #[trigger] descriptor_deps_ok(descs, i)
}

/// Index of the first descriptor whose dependencies are not satisfied,
/// scanning from `i`; the sequence length when there is none.
pub open spec fn first_violation_from(descs: Seq<ExtensionDescriptor>, i: int) -> int
    decreases descs.len() - i,
    when 0 <= i <= descs.len()
{
    if i >= descs.len() {
        descs.len() as int
    } else if !descriptor_deps_ok(descs, i) {
        i
    } else {
        first_violation_from(descs, i + 1)
    }
}

pub open spec fn first_violation(descs: Seq<ExtensionDescriptor>) -> int {
    first_violation_from(descs, 0)
}

/// The first dependency of descriptor `i` that no earlier descriptor
/// satisfies, scanning its dependency list from `k`; empty when all are
/// satisfied.
pub open spec fn first_unmet_dep_from(descs: Seq<ExtensionDescriptor>, i: int, k: int) -> Seq<char>
    decreases descs[i].deps@.len() - k,
    when 0 <= k <= descs[i].deps@.len()
{
    if k >= descs[i].deps@.len() {
        Seq::empty()
    } else if !dep_satisfied_before(descs, i, descs[i].deps@[k]@) {
        descs[i].deps@[k]@
    } else {
        first_unmet_dep_from(descs, i, k + 1)
    }
}

pub open spec fn first_unmet_dep(descs: Seq<ExtensionDescriptor>, i: int) -> Seq<char> {
    first_unmet_dep_from(descs, i, 0)
}

/// The ordered list of extension names: the registry's identity for
/// snapshot-compatibility checks.
pub open spec fn spec_fingerprint(descs: Seq<ExtensionDescriptor>) -> Seq<Seq<char>> {
    Seq::new(descs.len(), |i: int| descs[i].name@)
}

/// The global bindings a cold start establishes: every descriptor's source
/// fragments, concatenated in registration order.
pub open spec fn spec_bindings(descs: Seq<ExtensionDescriptor>) -> Seq<Seq<char>>
    decreases descs.len(),
{
    if descs.len() == 0 {
        Seq::empty()
    } else {
        spec_bindings(descs.drop_last()) + descs.last().sources.deep_view()
    }
}

/// Collects every source fragment in registration order: the executable
/// counterpart of [`spec_bindings`].
pub fn collect_sources(descs: &Vec<ExtensionDescriptor>) -> (out: Vec<String>)
    ensures
        out.deep_view() == spec_bindings(descs@),
{
    let ghost all = descs@;
    let mut out: Vec<String> = Vec::new();
    let mut i: usize = 0;
    while i < descs.len()
        invariant
            i <= all.len(),
            all == descs@,
            out.deep_view() == spec_bindings(all.take(i as int)),
        decreases all.len() - i,
    {
        let srcs_len = descs[i].sources.len();
        let mut k: usize = 0;
        while k < srcs_len
            invariant
                k <= srcs_len,
                i < all.len(),
                all == descs@,
                srcs_len == all[i as int].sources@.len(),
                out.deep_view() == spec_bindings(all.take(i as int)) + all[i as int].sources.deep_view().take(k as int),
            decreases srcs_len - k,
        {
            let ghost before = out.deep_view();
            out.push(descs[i].sources[k].clone());
            proof {
                assert(out.deep_view() =~= before.push(all[i as int].sources@[k as int]@));
                assert(out.deep_view() =~= spec_bindings(all.take(i as int))
                    + all[i as int].sources.deep_view().take(k as int + 1));
            }
            k += 1;
        }
        proof {
            assert(all[i as int].sources.deep_view().take(srcs_len as int)
                =~= all[i as int].sources.deep_view());
            assert(all.take(i as int + 1).drop_last() =~= all.take(i as int));
            assert(all.take(i as int + 1).last() == all[i as int]);
            assert(spec_bindings(all.take(i as int + 1)) == spec_bindings(all.take(i as int))
                + all[i as int].sources.deep_view());
        }
        i += 1;
    }
    proof {
        assert(all.take(all.len() as int) =~= all);
    }
    out
}

proof fn lemma_first_violation_from_is(descs: Seq<ExtensionDescriptor>, lo: int, i: int)
    requires
        0 <= lo <= i < descs.len(),
        forall|j: int| lo <= j < i ==> #[trigger] descriptor_deps_ok(descs, j),
        !descriptor_deps_ok(descs, i),
    ensures
        first_violation_from(descs, lo) == i,
    decreases i - lo,
{
    if lo < i {
        lemma_first_violation_from_is(descs, lo + 1, i);
    }
}

proof fn lemma_first_unmet_dep_from_is(descs: Seq<ExtensionDescriptor>, i: int, lo: int, k: int)
    requires
        0 <= i < descs.len(),
        0 <= lo <= k < descs[i].deps@.len(),
        forall|k2: int|
            lo <= k2 < k ==> dep_satisfied_before(descs, i, #[trigger] descs[i].deps@[k2]@),
        !dep_satisfied_before(descs, i, descs[i].deps@[k]@),
    ensures
        first_unmet_dep_from(descs, i, lo) == descs[i].deps@[k]@,
    decreases k - lo,
{
    if lo < k {
        lemma_first_unmet_dep_from_is(descs, i, lo + 1, k);
    }
}

/// The native operations an isolate registers: every descriptor's
/// operation names, concatenated in registration order. Registered whether
/// the isolate starts cold or from a snapshot.
pub open spec fn spec_registered_ops(descs: Seq<ExtensionDescriptor>) -> Seq<Seq<char>>
    decreases descs.len(),
{
    if descs.len() == 0 {
        Seq::empty()
    } else {
        spec_registered_ops(descs.drop_last()) + descs.last().op_names.deep_view()
    }
}

/// Collects every operation name in registration order: the executable
/// counterpart of [`spec_registered_ops`].
pub fn collect_ops(descs: &Vec<ExtensionDescriptor>) -> (out: Vec<String>)
    ensures
        out.deep_view() == spec_registered_ops(descs@),
{
    let ghost all = descs@;
    let mut out: Vec<String> = Vec::new();
    let mut i: usize = 0;
    while i < descs.len()
        invariant
            i <= all.len(),
            all == descs@,
            out.deep_view() == spec_registered_ops(all.take(i as int)),
        decreases all.len() - i,
    {
        let ops_len = descs[i].op_names.len();
        let mut k: usize = 0;
        while k < ops_len
            invariant
                k <= ops_len,
                i < all.len(),
                all == descs@,
                ops_len == all[i as int].op_names@.len(),
                out.deep_view() == spec_registered_ops(all.take(i as int))
                    + all[i as int].op_names.deep_view().take(k as int),
            decreases ops_len - k,
        {
            let ghost before = out.deep_view();
            out.push(descs[i].op_names[k].clone());
            proof {
                assert(out.deep_view() =~= before.push(all[i as int].op_names@[k as int]@));
                assert(out.deep_view() =~= spec_registered_ops(all.take(i as int))
                    + all[i as int].op_names.deep_view().take(k as int + 1));
            }
            k += 1;
        }
        proof {
            assert(all[i as int].op_names.deep_view().take(ops_len as int)
                =~= all[i as int].op_names.deep_view());
            assert(all.take(i as int + 1).drop_last() =~= all.take(i as int));
            assert(all.take(i as int + 1).last() == all[i as int]);
        }
        i += 1;
    }
    proof {
        assert(all.take(all.len() as int) =~= all);
    }
    out
}

/// Fatal composition failure: the first extension registered before one of
/// its dependencies, and that missing dependency.
#[derive(Debug)]
pub struct OrderingError {
    pub extension: String,
    pub missing_dependency: String,
}

/// An extension sequence whose initialization order has been validated:
/// every dependency precedes its dependent.
pub struct ValidatedRegistry {
    descriptors: Vec<ExtensionDescriptor>,
}

/// Whether `descs[i]` names a dependency satisfied by a descriptor earlier
/// than position `i`.
fn name_registered_before(descs: &Vec<ExtensionDescriptor>, i: usize, dep: &String) -> (b: bool)
    requires
        i <= descs@.len(),
    ensures
        b == dep_satisfied_before(descs@, i as int, dep@),
{
    let mut j: usize = 0;
    while j < i
        invariant
            j <= i <= descs@.len(),
            forall|j2: int| 0 <= j2 < j ==> #[trigger] descs@[j2].name@ != dep@,
        decreases i - j,
    {
        if descs[j].name == *dep {
            assert(dep_satisfied_before(descs@, i as int, dep@));
            return true;
        }
        j += 1;
    }
    assert(!dep_satisfied_before(descs@, i as int, dep@));
    false
}

/// Validates an ordered extension sequence. On success the registry keeps
/// exactly the input order; on failure it reports the first descriptor
/// whose dependency is not yet satisfied, and that dependency. A failure
/// indicates a build-time misconfiguration and is never retried.
pub fn compose(descriptors: Vec<ExtensionDescriptor>) -> (r: Result<
    ValidatedRegistry,
    OrderingError,
>)
    ensures
        r is Ok <==> ordering_ok(descriptors@),
        r matches Ok(reg) ==> reg@ == descriptors@ && ordering_ok(reg@),
        r matches Err(e) ==> {
            let v = first_violation(descriptors@);
            &&& 0 <= v < descriptors@.len()
            &&& !descriptor_deps_ok(descriptors@, v)
            &&& e.extension@ == descriptors@[v].name@
            &&& e.missing_dependency@ == first_unmet_dep(descriptors@, v)
        },
{
    let n = descriptors.len();
    let mut i: usize = 0;
    while i < n
        invariant
            i <= n,
            n == descriptors@.len(),
            forall|j: int| 0 <= j < i ==> #[trigger] descriptor_deps_ok(descriptors@, j),
        decreases n - i,
    {
        let deps_len = descriptors[i].deps.len();
        let mut k: usize = 0;
        while k < deps_len
            invariant
                k <= deps_len,
                i < n,
                n == descriptors@.len(),
                deps_len == descriptors@[i as int].deps@.len(),
                forall|j: int| 0 <= j < i ==> #[trigger] descriptor_deps_ok(descriptors@, j),
                forall|k2: int|
                    0 <= k2 < k ==> dep_satisfied_before(
                        descriptors@,
                        i as int,
                        #[trigger] descriptors@[i as int].deps@[k2]@,
                    ),
            decreases deps_len - k,
        {
            if !name_registered_before(&descriptors, i, &descriptors[i].deps[k]) {
                proof {
                    assert(!descriptor_deps_ok(descriptors@, i as int)) by {
                        assert(!dep_satisfied_before(
                            descriptors@,
                            i as int,
                            descriptors@[i as int].deps@[k as int]@,
                        ));
                    };
                    lemma_first_violation_from_is(descriptors@, 0, i as int);
                    lemma_first_unmet_dep_from_is(descriptors@, i as int, 0, k as int);
                    assert(!ordering_ok(descriptors@));
                }
                return Err(OrderingError {
                    extension: descriptors[i].name.clone(),
                    missing_dependency: descriptors[i].deps[k].clone(),
                });
            }
            k += 1;
        }
        assert(descriptor_deps_ok(descriptors@, i as int));
        i += 1;
    }
    Ok(ValidatedRegistry { descriptors })
}

/// How a stripped descriptor relates to the original: same identity,
/// dependencies and operation registrations, but no script-side sources
/// and no script-side initialization effects.
pub open spec fn stripped_of(d: ExtensionDescriptor, s: ExtensionDescriptor) -> bool {
    &&& s.name@ == d.name@
    &&& s.deps.deep_view() == d.deps.deep_view()
    &&& s.op_names.deep_view() == d.op_names.deep_view()
    &&& s.sources@.len() == 0
    &&& s.init_requests@.len() == 0
}

proof fn lemma_ordering_preserved(a: Seq<ExtensionDescriptor>, b: Seq<ExtensionDescriptor>)
    requires
        a.len() == b.len(),
        forall|i: int| 0 <= i < a.len() ==> stripped_of(a[i], #[trigger] b[i]),
        ordering_ok(a),
    ensures
        ordering_ok(b),
{
    assert forall|i: int| 0 <= i < b.len() implies descriptor_deps_ok(b, i) by {
        assert(descriptor_deps_ok(a, i));
        assert(b[i].deps.deep_view() == a[i].deps.deep_view());
        assert forall|k: int| 0 <= k < b[i].deps@.len() implies dep_satisfied_before(
            b,
            i,
            b[i].deps@[k]@,
        ) by {
            assert(b[i].deps@[k]@ == b[i].deps.deep_view()[k]);
            assert(a[i].deps@[k]@ == a[i].deps.deep_view()[k]);
            assert(dep_satisfied_before(a, i, a[i].deps@[k]@));
            let j = choose|j: int| 0 <= j < i && #[trigger] a[j].name@ == a[i].deps@[k]@;
            assert(b[j].name@ == a[j].name@);
            assert(b[j].name@ == b[i].deps@[k]@);
        }
    }
}

impl ValidatedRegistry {
    /// The validated descriptor sequence, in registration order.
    pub closed spec fn view(&self) -> Seq<ExtensionDescriptor> {
        self.descriptors@
    }

    /// A registry value only ever holds a validly ordered sequence.
    #[verifier::type_invariant]
    spec fn wf(self) -> bool {
        ordering_ok(self.descriptors@)
    }

    /// Every registry in existence is validly ordered; composition and the
    /// strip transform both maintain this.
    pub fn check_ordering(&self) -> (r: bool)
        ensures
            r,
            ordering_ok(self@),
    {
        proof {
            use_type_invariant(self);
        }
        true
    }

    pub fn descriptors(&self) -> (r: &Vec<ExtensionDescriptor>)
        ensures
            r@ == self@,
    {
        &self.descriptors
    }

    pub fn len(&self) -> (n: usize)
        ensures
            n == self@.len(),
    {
        self.descriptors.len()
    }

    /// The ordered list of extension names. Two registries are
    /// snapshot-compatible exactly when these lists match bit for bit.
    pub fn fingerprint(&self) -> (fp: Vec<String>)
        ensures
            fp.deep_view() == spec_fingerprint(self@),
    {
        let mut fp: Vec<String> = Vec::new();
        let mut i: usize = 0;
        while i < self.descriptors.len()
            invariant
                i <= self.descriptors@.len(),
                fp@.len() == i,
                forall|j: int| 0 <= j < i ==> #[trigger] fp@[j]@ == self.descriptors@[j].name@,
            decreases self.descriptors@.len() - i,
        {
            fp.push(self.descriptors[i].name.clone());
            i += 1;
        }
        proof {
            assert(fp.deep_view() =~= spec_fingerprint(self@));
        }
        fp
    }

    /// The transform used when a snapshot already embodies the script-side
    /// bindings: every descriptor keeps its identity, dependencies and
    /// operation registrations, but loses its source fragments, so a
    /// snapshot-loaded isolate re-registers native operations without
    /// re-evaluating script source already baked into the snapshot.
    pub fn strip_bindings(&self) -> (r: ValidatedRegistry)
        ensures
            r@.len() == self@.len(),
            forall|i: int| 0 <= i < self@.len() ==> stripped_of(self@[i], #[trigger] r@[i]),
            spec_fingerprint(r@) == spec_fingerprint(self@),
            ordering_ok(r@),
    {
        let mut out: Vec<ExtensionDescriptor> = Vec::new();
        let mut i: usize = 0;
        while i < self.descriptors.len()
            invariant
                i <= self.descriptors@.len(),
                out@.len() == i,
                forall|j: int|
                    0 <= j < i ==> stripped_of(self.descriptors@[j], #[trigger] out@[j]),
            decreases self.descriptors@.len() - i,
        {
            let d = &self.descriptors[i];
            let stripped = ExtensionDescriptor {
                name: d.name.clone(),
                deps: d.deps.clone(),
                sources: Vec::new(),
                op_names: d.op_names.clone(),
                init_requests: Vec::new(),
            };
            proof {
                assert(stripped.deps.deep_view() =~= d.deps.deep_view());
                assert(stripped.op_names.deep_view() =~= d.op_names.deep_view());
            }
            out.push(stripped);
            i += 1;
        }
        proof {
            use_type_invariant(self);
            lemma_ordering_preserved(self.descriptors@, out@);
            assert(spec_fingerprint(out@) =~= spec_fingerprint(self.descriptors@));
        }
        ValidatedRegistry { descriptors: out }
    }
}

} // verus!
