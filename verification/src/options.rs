//! Immutable per-isolate configuration. Built once for the main isolate
//! and derived afresh for every worker; never mutated after construction.

use vstd::prelude::*;

verus! {

/// Configuration for one isolate: process arguments, locale, user agent,
/// terminal flags, whether a node-style module directory is present, and
/// an optional inter-process pipe descriptor passed through to script.
pub struct BootstrapOptions {
    pub args: Vec<String>,
    pub locale: String,
    pub user_agent: String,
    pub is_tty: bool,
    pub no_color: bool,
    pub has_node_modules_dir: bool,
    pub node_ipc_fd: Option<i64>,
}

/// Field-by-field agreement of two option values, at the level of their
/// mathematical views. Cloning and worker derivation preserve exactly
/// what this relation states.
pub open spec fn options_equiv(a: BootstrapOptions, b: BootstrapOptions) -> bool {
    &&& a.args.deep_view() == b.args.deep_view()
    &&& a.locale@ == b.locale@
    &&& a.user_agent@ == b.user_agent@
    &&& a.is_tty == b.is_tty
    &&& a.no_color == b.no_color
    &&& a.has_node_modules_dir == b.has_node_modules_dir
    &&& a.node_ipc_fd == b.node_ipc_fd
}

impl BootstrapOptions {
    /// A value copy handed to an isolate; the original stays with the
    /// caller.
    pub fn duplicate(&self) -> (r: BootstrapOptions)
        ensures
            options_equiv(r, *self),
    {
        let r = BootstrapOptions {
            args: self.args.clone(),
            locale: self.locale.clone(),
            user_agent: self.user_agent.clone(),
            is_tty: self.is_tty,
            no_color: self.no_color,
            has_node_modules_dir: self.has_node_modules_dir,
            node_ipc_fd: self.node_ipc_fd,
        };
        proof {
            assert(r.args.deep_view() =~= self.args.deep_view());
        }
        r
    }
}

/// How a worker's options relate to its parent's: process arguments,
/// locale, user agent, terminal flags and module-directory flag are
/// inherited; the inter-process pipe belongs to the main isolate alone
/// and is never handed down.
pub open spec fn worker_options_of(parent: BootstrapOptions, child: BootstrapOptions) -> bool {
    &&& child.args.deep_view() == parent.args.deep_view()
    &&& child.locale@ == parent.locale@
    &&& child.user_agent@ == parent.user_agent@
    &&& child.is_tty == parent.is_tty
    &&& child.no_color == parent.no_color
    &&& child.has_node_modules_dir == parent.has_node_modules_dir
    &&& child.node_ipc_fd is None
}

/// Derives the scoped options for a spawned worker from its parent's.
pub fn derive_worker_options(parent: &BootstrapOptions) -> (r: BootstrapOptions)
    ensures
        worker_options_of(*parent, r),
{
    let r = BootstrapOptions {
        args: parent.args.clone(),
        locale: parent.locale.clone(),
        user_agent: parent.user_agent.clone(),
        is_tty: parent.is_tty,
        no_color: parent.no_color,
        has_node_modules_dir: parent.has_node_modules_dir,
        node_ipc_fd: None,
    };
    proof {
        assert(r.args.deep_view() =~= parent.args.deep_view());
    }
    r
}

/// Options gathered at the process boundary for the main worker: the
/// process argument vector, the executable location, and flags that shape
/// operation registration.
pub struct CliMainWorkerOptions {
    pub argv: Vec<String>,
    pub argv0: Option<String>,
    pub skip_op_registration: bool,
    pub maybe_root_package_json_deps: Option<()>,
}

} // verus!
