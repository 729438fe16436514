//! The runtime bootstrapper: given a validated registry, a capability
//! authority, per-isolate options and optionally a snapshot, it constructs
//! one configured isolate. With a snapshot it first checks the snapshot's
//! fingerprint against the registry's, fatally rejecting a mismatch; cold
//! starts evaluate every extension's script-side sources in registry
//! order, snapshot starts rehydrate the baked bindings instead. The
//! engine's cooperative event loop itself is an external collaborator:
//! once it settles, the isolate records and propagates the main module's
//! terminal result. Process-wide shared worker state is wired around the
//! isolate by the worker host.

use vstd::prelude::*;
use crate::capability::{CapabilityAuthority, CapabilityDecision, CapabilityRequest};
use crate::options::{BootstrapOptions, options_equiv};
use crate::registry::{
    ExtensionDescriptor, ValidatedRegistry, collect_ops, collect_sources, spec_bindings,
    spec_fingerprint, spec_registered_ops,
};
use crate::snapshot::{Snapshot, fingerprint_matches, fingerprints_match};

verus! {

/// Fatal isolate-construction failure: the supplied snapshot was built
/// from a different extension list or order than the registry in use.
#[derive(Debug, Clone, Copy, PartialEq, Eq, Structural)]
pub enum StartError {
    FingerprintMismatch,
}

/// Terminal result of the engine's event loop for the main module, as the
/// external engine reports it.
pub enum ScriptOutcome {
    Completed,
    Uncaught { message: String },
}

/// The main module's terminal failure, propagated to the embedder rather
/// than swallowed.
#[derive(Debug)]
pub enum RunError {
    Uncaught { message: String },
}

/// The global bindings an isolate observes after construction: the baked
/// snapshot bindings when a snapshot is used, the registry's own sources
/// evaluated in order otherwise.
pub open spec fn spec_isolate_bindings(
    descs: Seq<ExtensionDescriptor>,
    snapshot_bindings: Option<Seq<Seq<char>>>,
) -> Seq<Seq<char>> {
    match snapshot_bindings {
        Some(b) => b,
        None => spec_bindings(descs),
    }
}

/// One configured instance of the script engine: its registered native
/// operations, its observable global bindings, its capability authority,
/// and the per-isolate options injected into op-visible state.
pub struct Isolate {
    registered_ops: Vec<String>,
    global_bindings: Vec<String>,
    evaluated_sources: bool,
    options: BootstrapOptions,
    pipe: Option<i64>,
    main_module: String,
    authority: CapabilityAuthority,
    completed: bool,
}

impl Isolate {
    /// Registered native operation names, in registration order.
    pub closed spec fn ops(&self) -> Seq<Seq<char>> {
        self.registered_ops.deep_view()
    }

    /// Observable global bindings, in evaluation order.
    pub closed spec fn bindings(&self) -> Seq<Seq<char>> {
        self.global_bindings.deep_view()
    }

    /// Whether script-side sources were evaluated here (cold start), as
    /// opposed to being rehydrated from a snapshot.
    pub closed spec fn evaluated_cold(&self) -> bool {
        self.evaluated_sources
    }

    pub closed spec fn spec_options(&self) -> BootstrapOptions {
        self.options
    }

    /// The inter-process pipe descriptor injected into op-visible state.
    pub closed spec fn pipe_descriptor(&self) -> Option<i64> {
        self.pipe
    }

    pub closed spec fn main_module_name(&self) -> Seq<char> {
        self.main_module@
    }

    pub closed spec fn spec_authority(&self) -> CapabilityAuthority {
        self.authority
    }

    /// Whether the single permitted run of this isolate has settled.
    pub closed spec fn has_completed(&self) -> bool {
        self.completed
    }

    pub fn op_names(&self) -> (r: &Vec<String>)
        ensures
            r.deep_view() == self.ops(),
    {
        &self.registered_ops
    }

    pub fn binding_fragments(&self) -> (r: &Vec<String>)
        ensures
            r.deep_view() == self.bindings(),
    {
        &self.global_bindings
    }

    pub fn was_cold_started(&self) -> (r: bool)
        ensures
            r == self.evaluated_cold(),
    {
        self.evaluated_sources
    }

    pub fn pipe_fd(&self) -> (r: Option<i64>)
        ensures
            r == self.pipe_descriptor(),
    {
        self.pipe
    }

    pub fn options_ref(&self) -> (r: &BootstrapOptions)
        ensures
            *r == self.spec_options(),
    {
        &self.options
    }

    pub fn main_module(&self) -> (r: &String)
        ensures
            r@ == self.main_module_name(),
    {
        &self.main_module
    }

    pub fn is_completed(&self) -> (r: bool)
        ensures
            r == self.has_completed(),
    {
        self.completed
    }

    /// Gates one privileged operation of the running script behind this
    /// isolate's capability authority. A denial is surfaced to script as a
    /// catchable exception; it never tears the isolate down.
    pub fn request_capability(&self, request: &CapabilityRequest) -> (d: CapabilityDecision)
        ensures
            self.spec_authority().decision_for(d),
    {
        self.authority.decide(request)
    }

    /// Records the terminal result of the main module once the event loop
    /// has settled, and propagates it: success stays success, an uncaught
    /// script exception becomes the embedder's error. Only one run per
    /// isolate is valid; a second one is a programming error, ruled out
    /// here rather than handled.
    pub fn finish_run(&mut self, outcome: ScriptOutcome) -> (r: Result<(), RunError>)
        requires
            !old(self).has_completed(),
        ensures
            final(self).has_completed(),
            final(self).ops() == old(self).ops(),
            final(self).bindings() == old(self).bindings(),
            final(self).evaluated_cold() == old(self).evaluated_cold(),
            final(self).spec_options() == old(self).spec_options(),
            final(self).pipe_descriptor() == old(self).pipe_descriptor(),
            final(self).main_module_name() == old(self).main_module_name(),
            final(self).spec_authority() == old(self).spec_authority(),
            outcome matches ScriptOutcome::Completed ==> r is Ok,
            outcome matches ScriptOutcome::Uncaught { message } ==> (r matches Err(
                RunError::Uncaught { message: m },
            ) && m@ == message@),
    {
        self.completed = true;
        match outcome {
            ScriptOutcome::Completed => Ok(()),
            ScriptOutcome::Uncaught { message } => Err(RunError::Uncaught { message }),
        }
    }
}

/// Constructs one isolate. With a snapshot, the snapshot's recorded
/// fingerprint must equal the registry's own, bit for bit: a mismatch is a
/// fatal configuration error reported before any module evaluation. The
/// registry's operations are registered either way; script-side sources
/// are evaluated only on a cold start. Options and the optional pipe
/// descriptor are injected into the isolate's op-visible state.
pub fn start(
    registry: &ValidatedRegistry,
    authority: CapabilityAuthority,
    options: BootstrapOptions,
    snapshot: Option<&Snapshot>,
    main_module: String,
) -> (r: Result<Isolate, StartError>)
    ensures
        r is Ok <==> (match snapshot {
            Some(s) => fingerprints_match(s.fingerprint.deep_view(), spec_fingerprint(registry@)),
            None => true,
        }),
        r matches Err(e) ==> e is FingerprintMismatch,
        r matches Ok(iso) ==> {
            &&& iso.ops() == spec_registered_ops(registry@)
            &&& iso.bindings() == spec_isolate_bindings(
                registry@,
                match snapshot {
                    Some(s) => Some(s.bindings.deep_view()),
                    None => None,
                },
            )
            &&& iso.evaluated_cold() == (snapshot is None)
            &&& options_equiv(iso.spec_options(), options)
            &&& iso.pipe_descriptor() == options.node_ipc_fd
            &&& iso.main_module_name() == main_module@
            &&& iso.spec_authority() == authority
            &&& !iso.has_completed()
        },
{
    let pipe = options.node_ipc_fd;
    match snapshot {
        Some(s) => {
            let registry_fp = registry.fingerprint();
            if !fingerprint_matches(&s.fingerprint, &registry_fp) {
                return Err(StartError::FingerprintMismatch);
            }
            let baked = s.bindings.clone();
            proof {
                assert(baked.deep_view() =~= s.bindings.deep_view());
            }
            Ok(Isolate {
                registered_ops: collect_ops(registry.descriptors()),
                global_bindings: baked,
                evaluated_sources: false,
                options,
                pipe,
                main_module,
                authority,
                completed: false,
            })
        },
        None => {
            Ok(Isolate {
                registered_ops: collect_ops(registry.descriptors()),
                global_bindings: collect_sources(registry.descriptors()),
                evaluated_sources: true,
                options,
                pipe,
                main_module,
                authority,
                completed: false,
            })
        },
    }
}

/// Snapshot round trip: a snapshot built from a registry is always
/// accepted by a start under that same registry (its fingerprint equals
/// the registry's own), and the bindings such a start rehydrates are
/// exactly the bindings a cold start of the same registry would evaluate
/// -- without the snapshot start evaluating any source itself.
pub proof fn lemma_snapshot_round_trip(descs: Seq<ExtensionDescriptor>)
    ensures
        fingerprints_match(spec_fingerprint(descs), spec_fingerprint(descs)),
        spec_isolate_bindings(descs, Some(spec_bindings(descs))) == spec_isolate_bindings(
            descs,
            None,
        ),
{
}

} // verus!
