//! The worker hierarchy: one process-wide bundle of shared resources, a
//! broadcast channel for cross-isolate traffic, and a host that spawns,
//! observes and terminates nested worker isolates. Spawning is re-entrant:
//! a spawned worker may spawn further workers to unbounded depth, every
//! one wired to the same shared state and the same snapshot.

use vstd::prelude::*;
use crate::bootstrap::{Isolate, StartError, spec_isolate_bindings, start};
use crate::capability::CapabilityAuthority;
use crate::options::{
    BootstrapOptions, CliMainWorkerOptions, derive_worker_options, worker_options_of,
};
use crate::registry::{ExtensionDescriptor, ValidatedRegistry, spec_fingerprint,
    spec_registered_ops};
use crate::snapshot::{Snapshot, fingerprints_match};

verus! {

/// Implemented by embedders that can tell whether any loaded module uses
/// a node-style specifier, so the node compatibility layer initializes
/// only when needed.
pub trait HasNodeSpecifierChecker {
    fn has_node_specifier(&self) -> bool;
}

/// One message published on the broadcast channel, together with the
/// workers (alive subscribers at publish time) it was delivered to.
pub struct BroadcastMessage {
    pub publisher: u64,
    pub body: String,
    pub recipients: Vec<u64>,
}

/// The process-wide resource bundle every isolate in the hierarchy
/// shares: store handles, the broadcast channel, process arguments.
/// Constructed once; only the broadcast channel's internally synchronized
/// message log ever changes afterwards.
pub struct SharedWorkerState {
    blob_store: u64,
    shared_array_buffer_store: u64,
    compiled_wasm_module_store: u64,
    fs: u64,
    argv: Vec<String>,
    argv0: Option<String>,
    skip_op_registration: bool,
    maybe_root_package_json_deps: Option<()>,
    channel: Vec<BroadcastMessage>,
}

impl SharedWorkerState {
    pub closed spec fn fs_handle(&self) -> u64 {
        self.fs
    }

    pub closed spec fn blob_store_handle(&self) -> u64 {
        self.blob_store
    }

    pub closed spec fn shared_array_buffer_store_handle(&self) -> u64 {
        self.shared_array_buffer_store
    }

    pub closed spec fn compiled_wasm_module_store_handle(&self) -> u64 {
        self.compiled_wasm_module_store
    }

    pub closed spec fn spec_argv(&self) -> Seq<Seq<char>> {
        self.argv.deep_view()
    }

    pub closed spec fn spec_argv0(&self) -> Option<Seq<char>> {
        match self.argv0 {
            Some(a) => Some(a@),
            None => None,
        }
    }

    pub closed spec fn spec_skip_op_registration(&self) -> bool {
        self.skip_op_registration
    }

    pub closed spec fn spec_root_package_json_deps(&self) -> Option<()> {
        self.maybe_root_package_json_deps
    }

    /// The broadcast channel's full message log, oldest first.
    pub closed spec fn channel_log(&self) -> Seq<BroadcastMessage> {
        self.channel@
    }

    /// Builds the bundle once per process from the filesystem handle, the
    /// store handles and the main worker options gathered at the process
    /// boundary.
    pub fn new(
        fs: u64,
        blob_store: u64,
        shared_array_buffer_store: u64,
        compiled_wasm_module_store: u64,
        main_options: CliMainWorkerOptions,
    ) -> (s: SharedWorkerState)
        ensures
            s.fs_handle() == fs,
            s.blob_store_handle() == blob_store,
            s.shared_array_buffer_store_handle() == shared_array_buffer_store,
            s.compiled_wasm_module_store_handle() == compiled_wasm_module_store,
            s.spec_argv() == main_options.argv.deep_view(),
            s.spec_argv0() == (match main_options.argv0 {
                Some(a) => Some::<Seq<char>>(a@),
                None => None::<Seq<char>>,
            }),
            s.spec_skip_op_registration() == main_options.skip_op_registration,
            s.spec_root_package_json_deps() == main_options.maybe_root_package_json_deps,
            s.channel_log() == Seq::<BroadcastMessage>::empty(),
    {
        let s = SharedWorkerState {
            blob_store,
            shared_array_buffer_store,
            compiled_wasm_module_store,
            fs,
            argv: main_options.argv,
            argv0: main_options.argv0,
            skip_op_registration: main_options.skip_op_registration,
            maybe_root_package_json_deps: main_options.maybe_root_package_json_deps,
            channel: Vec::new(),
        };
        proof {
            assert(s.channel_log() =~= Seq::<BroadcastMessage>::empty());
        }
        s
    }

    pub fn argv(&self) -> (r: &Vec<String>)
        ensures
            r.deep_view() == self.spec_argv(),
    {
        &self.argv
    }

    pub fn argv0(&self) -> (r: &Option<String>)
        ensures
            (match r {
                Some(a) => self.spec_argv0() == Some(a@),
                None => self.spec_argv0() is None,
            }),
    {
        &self.argv0
    }

    pub fn fs(&self) -> (r: u64)
        ensures
            r == self.fs_handle(),
    {
        self.fs
    }

    pub fn blob_store(&self) -> (r: u64)
        ensures
            r == self.blob_store_handle(),
    {
        self.blob_store
    }

    pub fn skip_op_registration(&self) -> (r: bool)
        ensures
            r == self.spec_skip_op_registration(),
    {
        self.skip_op_registration
    }
}

/// Everything of the shared bundle except the channel log: what stays
/// untouched by every publish, spawn and terminate.
pub open spec fn same_resources(a: SharedWorkerState, b: SharedWorkerState) -> bool {
    &&& a.fs_handle() == b.fs_handle()
    &&& a.blob_store_handle() == b.blob_store_handle()
    &&& a.shared_array_buffer_store_handle() == b.shared_array_buffer_store_handle()
    &&& a.compiled_wasm_module_store_handle() == b.compiled_wasm_module_store_handle()
    &&& a.spec_argv() == b.spec_argv()
    &&& a.spec_argv0() == b.spec_argv0()
    &&& a.spec_skip_op_registration() == b.spec_skip_op_registration()
    &&& a.spec_root_package_json_deps() == b.spec_root_package_json_deps()
}

/// Dedicated workers serve one parent; shared workers may be addressed by
/// several scripts.
#[derive(Clone, Copy, PartialEq, Eq, Structural, Debug)]
pub enum WorkerType {
    Dedicated,
    Shared,
}

/// One spawn call's payload: the child's identifier, its main module, its
/// type, and the parent-derived capability authority the child runs
/// under. Ownership transfers into the child isolate.
pub struct WorkerSpawnRequest {
    pub worker_id: u64,
    pub main_module: String,
    pub worker_type: WorkerType,
    pub authority: CapabilityAuthority,
}

/// One isolate in the hierarchy: the root or a spawned worker.
pub struct WorkerRecord {
    pub id: u64,
    pub parent: Option<u64>,
    pub alive: bool,
    pub subscribed: bool,
    pub worker_type: WorkerType,
    pub isolate: Isolate,
}

/// No two records carry the same identifier.
pub open spec fn ids_unique(ws: Seq<WorkerRecord>) -> bool {
    forall|i: int, j: int|
        0 <= i < j < ws.len() ==> (#[trigger] ws[i]).id != (#[trigger] ws[j]).id
}

/// Some record carries this identifier.
pub open spec fn worker_id_taken(ws: Seq<WorkerRecord>, id: u64) -> bool {
    exists|i: int| 0 <= i < ws.len() && (#[trigger] ws[i]).id == id
}

/// Some record carries this identifier and still runs.
pub open spec fn worker_alive(ws: Seq<WorkerRecord>, id: u64) -> bool {
    exists|i: int| 0 <= i < ws.len() && (#[trigger] ws[i]).id == id && ws[i].alive
}

/// The record with its event loop stopped; everything else kept.
pub open spec fn terminated(w: WorkerRecord) -> WorkerRecord {
    WorkerRecord { alive: false, ..w }
}

/// The record subscribed to the broadcast channel; everything else kept.
pub open spec fn with_subscription(w: WorkerRecord) -> WorkerRecord {
    WorkerRecord { subscribed: true, ..w }
}

/// The identifiers a publish delivers to: every worker that is alive and
/// subscribed at publish time, in record order.
pub open spec fn subscriber_ids(ws: Seq<WorkerRecord>) -> Seq<u64>
    decreases ws.len(),
{
    if ws.len() == 0 {
        Seq::empty()
    } else {
        let rest = subscriber_ids(ws.drop_last());
        if ws.last().alive && ws.last().subscribed {
            rest.push(ws.last().id)
        } else {
            rest
        }
    }
}

/// Delivery is complete: every alive subscriber's identifier is in the
/// delivery set of a publish, wherever the worker stands in the spawn
/// hierarchy. This is the general publish-then-subscribe visibility
/// guarantee: nesting depth never hides a message.
pub proof fn lemma_subscribers_complete(ws: Seq<WorkerRecord>, i: int)
    requires
        0 <= i < ws.len(),
        ws[i].alive,
        ws[i].subscribed,
    ensures
        subscriber_ids(ws).contains(ws[i].id),
    decreases ws.len(),
{
    if i == ws.len() - 1 {
        let s = subscriber_ids(ws);
        assert(s.last() == ws[i].id);
        assert(s.contains(ws[i].id));
    } else {
        lemma_subscribers_complete(ws.drop_last(), i);
        let rest = subscriber_ids(ws.drop_last());
        let k = choose|k: int| 0 <= k < rest.len() && rest[k] == ws.drop_last()[i].id;
        assert(subscriber_ids(ws)[k] == rest[k]);
        assert(subscriber_ids(ws).contains(ws[i].id));
    }
}

/// Delivery is sound: every identifier in the delivery set belongs to a
/// worker that was alive and subscribed at publish time.
pub proof fn lemma_subscribers_sound(ws: Seq<WorkerRecord>, id: u64)
    requires
        subscriber_ids(ws).contains(id),
    ensures
        exists|i: int|
            0 <= i < ws.len() && (#[trigger] ws[i]).id == id && ws[i].alive && ws[i].subscribed,
    decreases ws.len(),
{
    let s = subscriber_ids(ws);
    let rest = subscriber_ids(ws.drop_last());
    if ws.last().alive && ws.last().subscribed && id == ws.last().id {
        assert(ws[ws.len() - 1].id == id);
    } else {
        let k = choose|k: int| 0 <= k < s.len() && s[k] == id;
        assert(rest[k] == id);
        assert(rest.contains(id));
        lemma_subscribers_sound(ws.drop_last(), id);
        let i = choose|i: int|
            0 <= i < ws.drop_last().len() && (#[trigger] ws.drop_last()[i]).id == id
                && ws.drop_last()[i].alive && ws.drop_last()[i].subscribed;
        assert(ws[i].id == id && ws[i].alive && ws[i].subscribed);
    }
}

/// Publish-then-subscribe visibility across arbitrary nesting depth: the
/// delivery set of a publish reaches every worker that is alive and
/// subscribed, whatever its position or depth in the spawn hierarchy.
pub proof fn lemma_publish_visibility(ws: Seq<WorkerRecord>)
    ensures
        forall|i: int|
            0 <= i < ws.len() && (#[trigger] ws[i]).alive && ws[i].subscribed ==> subscriber_ids(
                ws,
            ).contains(ws[i].id),
{
    assert forall|i: int|
        0 <= i < ws.len() && (#[trigger] ws[i]).alive && ws[i].subscribed implies subscriber_ids(
        ws,
    ).contains(ws[i].id) by {
        lemma_subscribers_complete(ws, i);
    }
}

/// Terminating one worker leaves every other worker exactly as it was:
/// still alive if it was alive, with the same subscription, identifier
/// and isolate. Parents, siblings and children of the terminated worker
/// are unaffected.
pub proof fn lemma_terminate_isolates(ws: Seq<WorkerRecord>, idx: int, other_id: u64)
    requires
        0 <= idx < ws.len(),
        ws[idx].id != other_id,
    ensures
        worker_alive(ws.update(idx, terminated(ws[idx])), other_id) == worker_alive(ws, other_id),
        worker_id_taken(ws.update(idx, terminated(ws[idx])), other_id) == worker_id_taken(
            ws,
            other_id,
        ),
{
    let ws2 = ws.update(idx, terminated(ws[idx]));
    if worker_alive(ws, other_id) {
        let i = choose|i: int| 0 <= i < ws.len() && (#[trigger] ws[i]).id == other_id && ws[i].alive;
        assert(ws2[i].id == other_id && ws2[i].alive);
    }
    if worker_alive(ws2, other_id) {
        let i = choose|i: int|
            0 <= i < ws2.len() && (#[trigger] ws2[i]).id == other_id && ws2[i].alive;
        assert(ws[i].id == other_id && ws[i].alive);
    }
    if worker_id_taken(ws, other_id) {
        let i = choose|i: int| 0 <= i < ws.len() && (#[trigger] ws[i]).id == other_id;
        assert(ws2[i].id == other_id);
    }
    if worker_id_taken(ws2, other_id) {
        let i = choose|i: int| 0 <= i < ws2.len() && (#[trigger] ws2[i]).id == other_id;
        assert(ws[i].id == other_id);
    }
}

/// A worker spawn rejected and reported to the spawning script; the
/// parent isolate is never torn down by it.
#[derive(Clone, Copy, PartialEq, Eq, Structural, Debug)]
pub enum SpawnError {
    UnknownParent,
    ParentTerminated,
    DuplicateWorkerId,
}

/// Failure of a channel or lifecycle operation that names a worker.
#[derive(Clone, Copy, PartialEq, Eq, Structural, Debug)]
pub enum WorkerOpError {
    UnknownWorker,
    WorkerTerminated,
}

/// Finds the index of the record carrying `id`.
fn find_worker(ws: &Vec<WorkerRecord>, id: u64) -> (r: Option<usize>)
    ensures
        r matches Some(idx) ==> idx < ws@.len() && ws@[idx as int].id == id,
        r is None ==> !worker_id_taken(ws@, id),
{
    let mut i: usize = 0;
    while i < ws.len()
        invariant
            i <= ws@.len(),
            forall|j: int| 0 <= j < i ==> (#[trigger] ws@[j]).id != id,
        decreases ws@.len() - i,
    {
        if ws[i].id == id {
            return Some(i);
        }
        i += 1;
    }
    None
}

/// Whether `id` occurs in a delivery list.
fn contains_id(ids: &Vec<u64>, id: u64) -> (r: bool)
    ensures
        r == ids@.contains(id),
{
    let mut i: usize = 0;
    while i < ids.len()
        invariant
            i <= ids@.len(),
            forall|j: int| 0 <= j < i ==> ids@[j] != id,
        decreases ids@.len() - i,
    {
        if ids[i] == id {
            return true;
        }
        i += 1;
    }
    false
}

proof fn lemma_alive_at_index(ws: Seq<WorkerRecord>, idx: int, id: u64)
    requires
        ids_unique(ws),
        0 <= idx < ws.len(),
        ws[idx].id == id,
    ensures
        worker_alive(ws, id) == ws[idx].alive,
{
    if ws[idx].alive {
        assert(worker_alive(ws, id));
    }
    if worker_alive(ws, id) {
        let i = choose|i: int| 0 <= i < ws.len() && (#[trigger] ws[i]).id == id && ws[i].alive;
        assert(i == idx);
    }
}

/// The message bodies a given worker was a delivery target of, oldest
/// first.
pub open spec fn observed_log(log: Seq<BroadcastMessage>, id: u64) -> Seq<Seq<char>>
    decreases log.len(),
{
    if log.len() == 0 {
        Seq::empty()
    } else {
        let rest = observed_log(log.drop_last(), id);
        if log.last().recipients@.contains(id) {
            rest.push(log.last().body@)
        } else {
            rest
        }
    }
}

/// The explicit worker spawner: it owns the one shared resource bundle,
/// the validated registry and the optional snapshot, and it tracks every
/// isolate of the hierarchy. The spawn operation is the re-entrant spawn
/// callback installed into every isolate: a spawned worker spawns further
/// workers through the same host, so nesting depth is unbounded.
pub struct WorkerHost {
    shared: SharedWorkerState,
    registry: ValidatedRegistry,
    snapshot: Option<Snapshot>,
    workers: Vec<WorkerRecord>,
}

impl WorkerHost {
    /// Identifiers stay unique, and any snapshot in use matches the
    /// registry bit for bit, so no nested spawn can fail on fingerprints.
    #[verifier::type_invariant]
    spec fn wf(self) -> bool {
        &&& ids_unique(self.workers@)
        &&& (match self.snapshot {
            Some(s) => fingerprints_match(
                s.fingerprint.deep_view(),
                spec_fingerprint(self.registry@),
            ),
            None => true,
        })
    }

    pub closed spec fn workers(&self) -> Seq<WorkerRecord> {
        self.workers@
    }

    pub closed spec fn shared_state(&self) -> SharedWorkerState {
        self.shared
    }

    pub closed spec fn spec_registry(&self) -> Seq<ExtensionDescriptor> {
        self.registry@
    }

    /// The baked bindings of the snapshot in use, when there is one.
    pub closed spec fn snapshot_model(&self) -> Option<Seq<Seq<char>>> {
        match self.snapshot {
            Some(s) => Some(s.bindings.deep_view()),
            None => None,
        }
    }

    pub closed spec fn channel_log(&self) -> Seq<BroadcastMessage> {
        self.shared.channel@
    }

    /// Builds the hierarchy with its root isolate. With a snapshot, the
    /// snapshot's fingerprint must equal the registry's, checked here
    /// once; afterwards every nested spawn reuses the pair without any
    /// possibility of a fingerprint failure.
    pub fn new(
        shared: SharedWorkerState,
        registry: ValidatedRegistry,
        snapshot: Option<Snapshot>,
        root_id: u64,
        root_authority: CapabilityAuthority,
        root_options: BootstrapOptions,
        root_main_module: String,
    ) -> (r: Result<WorkerHost, StartError>)
        ensures
            r is Ok <==> (match snapshot {
                Some(s) => fingerprints_match(
                    s.fingerprint.deep_view(),
                    spec_fingerprint(registry@),
                ),
                None => true,
            }),
            r matches Ok(host) ==> {
                &&& host.workers().len() == 1
                &&& host.workers()[0].id == root_id
                &&& host.workers()[0].parent is None
                &&& host.workers()[0].alive
                &&& !host.workers()[0].subscribed
                &&& host.workers()[0].isolate.ops() == spec_registered_ops(registry@)
                &&& host.workers()[0].isolate.bindings() == spec_isolate_bindings(
                    registry@,
                    host.snapshot_model(),
                )
                &&& host.workers()[0].isolate.evaluated_cold() == (snapshot is None)
                &&& host.workers()[0].isolate.spec_authority() == root_authority
                &&& host.workers()[0].isolate.main_module_name() == root_main_module@
                &&& crate::options::options_equiv(
                    host.workers()[0].isolate.spec_options(),
                    root_options,
                )
                &&& host.workers()[0].isolate.pipe_descriptor() == root_options.node_ipc_fd
                &&& !host.workers()[0].isolate.has_completed()
                &&& host.shared_state() == shared
                &&& host.spec_registry() == registry@
                &&& (host.snapshot_model() is Some <==> snapshot is Some)
                &&& (snapshot matches Some(s) ==> host.snapshot_model() == Some(
                    s.bindings.deep_view(),
                ))
            },
    {
        let iso = match start(
            &registry,
            root_authority,
            root_options,
            snapshot.as_ref(),
            root_main_module,
        ) {
            Ok(iso) => iso,
            Err(e) => {
                return Err(e);
            },
        };
        let mut workers: Vec<WorkerRecord> = Vec::new();
        workers.push(
            WorkerRecord {
                id: root_id,
                parent: None,
                alive: true,
                subscribed: false,
                worker_type: WorkerType::Dedicated,
                isolate: iso,
            },
        );
        Ok(WorkerHost { shared, registry, snapshot, workers })
    }

    /// The re-entrant spawn callback: builds a fresh isolate for the
    /// child through the runtime bootstrapper, reusing the same shared
    /// state and the same snapshot, under the parent-derived authority of
    /// the request. A rejected spawn leaves the hierarchy untouched and
    /// never tears down the parent.
    pub fn spawn(&mut self, parent_id: u64, request: WorkerSpawnRequest) -> (r: Result<
        u64,
        SpawnError,
    >)
        ensures
            r is Ok <==> (worker_alive(old(self).workers(), parent_id) && !worker_id_taken(
                old(self).workers(),
                request.worker_id,
            )),
            r matches Ok(id) ==> {
                &&& id == request.worker_id
                &&& final(self).workers().len() == old(self).workers().len() + 1
                &&& final(self).workers().drop_last() == old(self).workers()
                &&& ({
                    let w = final(self).workers().last();
                    &&& w.id == request.worker_id
                    &&& w.parent == Some(parent_id)
                    &&& w.alive
                    &&& !w.subscribed
                    &&& w.worker_type == request.worker_type
                    &&& w.isolate.spec_authority() == request.authority
                    &&& w.isolate.main_module_name() == request.main_module@
                    &&& w.isolate.ops() == spec_registered_ops(old(self).spec_registry())
                    &&& w.isolate.bindings() == spec_isolate_bindings(
                        old(self).spec_registry(),
                        old(self).snapshot_model(),
                    )
                    &&& w.isolate.evaluated_cold() == (old(self).snapshot_model() is None)
                    &&& !w.isolate.has_completed()
                    &&& exists|p: int|
                        0 <= p < old(self).workers().len() && (#[trigger] old(self).workers()[p]).id == parent_id && worker_options_of(
                            old(self).workers()[p].isolate.spec_options(),
                            w.isolate.spec_options(),
                        )
                })
                &&& final(self).shared_state() == old(self).shared_state()
                &&& final(self).spec_registry() == old(self).spec_registry()
                &&& final(self).snapshot_model() == old(self).snapshot_model()
            },
            r matches Err(e) ==> {
                &&& *final(self) == *old(self)
                &&& (e is UnknownParent <==> !worker_id_taken(old(self).workers(), parent_id))
                &&& (e is ParentTerminated <==> worker_id_taken(old(self).workers(), parent_id)
                    && !worker_alive(old(self).workers(), parent_id))
                &&& (e is DuplicateWorkerId <==> worker_alive(old(self).workers(), parent_id)
                    && worker_id_taken(old(self).workers(), request.worker_id))
            },
    {
        proof {
            use_type_invariant(&*self);
        }
        let parent_idx = match find_worker(&self.workers, parent_id) {
            Some(idx) => idx,
            None => {
                return Err(SpawnError::UnknownParent);
            },
        };
        proof {
            assert(worker_id_taken(self.workers@, parent_id));
            lemma_alive_at_index(self.workers@, parent_idx as int, parent_id);
        }
        if !self.workers[parent_idx].alive {
            return Err(SpawnError::ParentTerminated);
        }
        if let Some(_existing) = find_worker(&self.workers, request.worker_id) {
            proof {
                assert(worker_id_taken(self.workers@, request.worker_id));
            }
            return Err(SpawnError::DuplicateWorkerId);
        }
        let child_options = derive_worker_options(self.workers[parent_idx].isolate.options_ref());
        let iso = match start(
            &self.registry,
            request.authority,
            child_options,
            self.snapshot.as_ref(),
            request.main_module,
        ) {
            Ok(iso) => iso,
            Err(_) => {
                proof {
                    assert(false);
                }
                return vstd::pervasive::unreached();
            },
        };
        let record = WorkerRecord {
            id: request.worker_id,
            parent: Some(parent_id),
            alive: true,
            subscribed: false,
            worker_type: request.worker_type,
            isolate: iso,
        };
        let mut ws: Vec<WorkerRecord> = Vec::new();
        core::mem::swap(&mut ws, &mut self.workers);
        ws.push(record);
        proof {
            assert(ws@.drop_last() =~= old(self).workers());
            assert(ids_unique(ws@));
        }
        core::mem::swap(&mut ws, &mut self.workers);
        Ok(request.worker_id)
    }

    /// Stops one worker's event loop and abandons its in-flight work.
    /// Nothing else changes: every other record -- parent, siblings,
    /// children -- and the whole shared bundle, channel log included,
    /// stay exactly as they were. Termination never propagates.
    pub fn terminate(&mut self, worker_id: u64) -> (r: Result<(), WorkerOpError>)
        ensures
            r is Ok <==> worker_id_taken(old(self).workers(), worker_id),
            r is Ok ==> exists|i: int|
                0 <= i < old(self).workers().len() && (#[trigger] old(self).workers()[i]).id
                    == worker_id && final(self).workers() == old(self).workers().update(
                    i,
                    terminated(old(self).workers()[i]),
                ),
            r is Ok ==> final(self).shared_state() == old(self).shared_state()
                && final(self).spec_registry() == old(self).spec_registry()
                && final(self).snapshot_model() == old(self).snapshot_model(),
            r matches Err(e) ==> *final(self) == *old(self) && e is UnknownWorker,
    {
        proof {
            use_type_invariant(&*self);
        }
        let idx = match find_worker(&self.workers, worker_id) {
            Some(idx) => idx,
            None => {
                return Err(WorkerOpError::UnknownWorker);
            },
        };
        let mut ws: Vec<WorkerRecord> = Vec::new();
        core::mem::swap(&mut ws, &mut self.workers);
        ws[idx].alive = false;
        proof {
            assert(worker_id_taken(old(self).workers(), worker_id));
            assert(ws@ == old(self).workers().update(
                idx as int,
                terminated(old(self).workers()[idx as int]),
            ));
            assert forall|i: int, j: int| 0 <= i < j < ws@.len() implies (#[trigger] ws@[i]).id
                != (#[trigger] ws@[j]).id by {
                assert(old(self).workers()[i].id != old(self).workers()[j].id);
            }
        }
        core::mem::swap(&mut ws, &mut self.workers);
        Ok(())
    }

    /// Registers one running worker as a subscriber of the broadcast
    /// channel; it will be a delivery target of every later publish.
    pub fn subscribe(&mut self, worker_id: u64) -> (r: Result<(), WorkerOpError>)
        ensures
            r is Ok <==> worker_alive(old(self).workers(), worker_id),
            r is Ok ==> exists|i: int|
                0 <= i < old(self).workers().len() && (#[trigger] old(self).workers()[i]).id
                    == worker_id && final(self).workers() == old(self).workers().update(
                    i,
                    with_subscription(old(self).workers()[i]),
                ),
            r is Ok ==> final(self).shared_state() == old(self).shared_state()
                && final(self).spec_registry() == old(self).spec_registry()
                && final(self).snapshot_model() == old(self).snapshot_model(),
            r matches Err(e) ==> {
                &&& *final(self) == *old(self)
                &&& (e is UnknownWorker <==> !worker_id_taken(old(self).workers(), worker_id))
                &&& (e is WorkerTerminated <==> worker_id_taken(old(self).workers(), worker_id)
                    && !worker_alive(old(self).workers(), worker_id))
            },
    {
        proof {
            use_type_invariant(&*self);
        }
        let idx = match find_worker(&self.workers, worker_id) {
            Some(idx) => idx,
            None => {
                return Err(WorkerOpError::UnknownWorker);
            },
        };
        proof {
            assert(worker_id_taken(self.workers@, worker_id));
            lemma_alive_at_index(self.workers@, idx as int, worker_id);
        }
        if !self.workers[idx].alive {
            return Err(WorkerOpError::WorkerTerminated);
        }
        let mut ws: Vec<WorkerRecord> = Vec::new();
        core::mem::swap(&mut ws, &mut self.workers);
        ws[idx].subscribed = true;
        proof {
            assert(ws@ == old(self).workers().update(
                idx as int,
                with_subscription(old(self).workers()[idx as int]),
            ));
            assert forall|i: int, j: int| 0 <= i < j < ws@.len() implies (#[trigger] ws@[i]).id
                != (#[trigger] ws@[j]).id by {
                assert(old(self).workers()[i].id != old(self).workers()[j].id);
            }
        }
        core::mem::swap(&mut ws, &mut self.workers);
        Ok(())
    }

    /// Publishes one message from a running worker. The message is
    /// appended to the channel log and delivered to every worker alive
    /// and subscribed at publish time: publish-then-subscribe visibility
    /// holds across arbitrary nesting depth. Worker records and every
    /// other shared resource stay untouched.
    pub fn publish(&mut self, publisher_id: u64, body: String) -> (r: Result<(), WorkerOpError>)
        ensures
            r is Ok <==> worker_alive(old(self).workers(), publisher_id),
            r is Ok ==> {
                &&& final(self).channel_log().len() == old(self).channel_log().len() + 1
                &&& final(self).channel_log().drop_last() == old(self).channel_log()
                &&& ({
                    let m = final(self).channel_log().last();
                    &&& m.publisher == publisher_id
                    &&& m.body@ == body@
                    &&& m.recipients@ == subscriber_ids(old(self).workers())
                })
                &&& forall|i: int|
                    0 <= i < old(self).workers().len() && (#[trigger] old(self).workers()[i]).alive && old(self).workers()[i].subscribed
                        ==> final(self).channel_log().last().recipients@.contains(old(self).workers()[i].id)
                &&& final(self).workers() == old(self).workers()
                &&& same_resources(final(self).shared_state(), old(self).shared_state())
                &&& final(self).spec_registry() == old(self).spec_registry()
                &&& final(self).snapshot_model() == old(self).snapshot_model()
            },
            r matches Err(e) ==> {
                &&& *final(self) == *old(self)
                &&& (e is UnknownWorker <==> !worker_id_taken(old(self).workers(), publisher_id))
                &&& (e is WorkerTerminated <==> worker_id_taken(old(self).workers(), publisher_id)
                    && !worker_alive(old(self).workers(), publisher_id))
            },
    {
        proof {
            use_type_invariant(&*self);
        }
        let idx = match find_worker(&self.workers, publisher_id) {
            Some(idx) => idx,
            None => {
                return Err(WorkerOpError::UnknownWorker);
            },
        };
        proof {
            assert(worker_id_taken(self.workers@, publisher_id));
            lemma_alive_at_index(self.workers@, idx as int, publisher_id);
        }
        if !self.workers[idx].alive {
            return Err(WorkerOpError::WorkerTerminated);
        }
        let ghost ws = self.workers@;
        let mut recipients: Vec<u64> = Vec::new();
        let mut i: usize = 0;
        while i < self.workers.len()
            invariant
                i <= ws.len(),
                ws == self.workers@,
                recipients@ == subscriber_ids(ws.take(i as int)),
            decreases ws.len() - i,
        {
            if self.workers[i].alive && self.workers[i].subscribed {
                recipients.push(self.workers[i].id);
            }
            proof {
                assert(ws.take(i as int + 1).drop_last() =~= ws.take(i as int));
                assert(ws.take(i as int + 1).last() == ws[i as int]);
            }
            i += 1;
        }
        proof {
            assert(ws.take(ws.len() as int) =~= ws);
        }
        let message = BroadcastMessage { publisher: publisher_id, body, recipients };
        let mut log: Vec<BroadcastMessage> = Vec::new();
        core::mem::swap(&mut log, &mut self.shared.channel);
        log.push(message);
        core::mem::swap(&mut log, &mut self.shared.channel);
        proof {
            assert(self.shared.channel@.drop_last() =~= old(self).channel_log());
            lemma_publish_visibility(old(self).workers());
        }
        Ok(())
    }

    pub fn worker_count(&self) -> (n: usize)
        ensures
            n == self.workers().len(),
    {
        self.workers.len()
    }

    pub fn is_alive(&self, worker_id: u64) -> (r: bool)
        ensures
            r == worker_alive(self.workers(), worker_id),
    {
        proof {
            use_type_invariant(&*self);
        }
        match find_worker(&self.workers, worker_id) {
            Some(idx) => {
                proof {
                    lemma_alive_at_index(self.workers@, idx as int, worker_id);
                }
                self.workers[idx].alive
            },
            None => {
                proof {
                    if worker_alive(self.workers@, worker_id) {
                        assert(worker_id_taken(self.workers@, worker_id));
                    }
                }
                false
            },
        }
    }

    /// The record of one worker, root included: its parentage, liveness,
    /// type and configured isolate.
    pub fn worker(&self, worker_id: u64) -> (r: Option<&WorkerRecord>)
        ensures
            match r {
                Some(w) => w.id == worker_id && exists|i: int|
                    0 <= i < self.workers().len() && (#[trigger] self.workers()[i]) == *w,
                None => !worker_id_taken(self.workers(), worker_id),
            },
    {
        match find_worker(&self.workers, worker_id) {
            Some(idx) => {
                let w = &self.workers[idx];
                proof {
                    assert(self.workers()[idx as int] == *w);
                }
                Some(w)
            },
            None => None,
        }
    }

    pub fn shared(&self) -> (r: &SharedWorkerState)
        ensures
            *r == self.shared_state(),
    {
        &self.shared
    }

    pub fn message_count(&self) -> (n: usize)
        ensures
            n == self.channel_log().len(),
    {
        self.shared.channel.len()
    }

    /// The message bodies delivered to one worker, oldest first: exactly
    /// the publishes for which it was alive and subscribed.
    pub fn observed_messages(&self, worker_id: u64) -> (out: Vec<String>)
        ensures
            out.deep_view() == observed_log(self.channel_log(), worker_id),
    {
        let ghost log = self.shared.channel@;
        let mut out: Vec<String> = Vec::new();
        let mut i: usize = 0;
        while i < self.shared.channel.len()
            invariant
                i <= log.len(),
                log == self.shared.channel@,
                out.deep_view() == observed_log(log.take(i as int), worker_id),
            decreases log.len() - i,
        {
            let ghost before = out.deep_view();
            if contains_id(&self.shared.channel[i].recipients, worker_id) {
                out.push(self.shared.channel[i].body.clone());
                proof {
                    assert(out.deep_view() =~= before.push(log[i as int].body@));
                }
            }
            proof {
                assert(log.take(i as int + 1).drop_last() =~= log.take(i as int));
                assert(log.take(i as int + 1).last() == log[i as int]);
            }
            i += 1;
        }
        proof {
            assert(log.take(log.len() as int) =~= log);
        }
        out
    }
}

} // verus!
