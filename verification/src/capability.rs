//! The capability authority: answers allow/deny for every privileged
//! request an isolate makes (network, filesystem read/write, foreign
//! calls, OS introspection). Decisions are synchronous, deterministic and
//! side-effect-free.

use vstd::prelude::*;

verus! {

/// The kind of privileged resource a script operation wants to touch.
#[derive(Clone, Copy, PartialEq, Eq, Structural, Debug)]
pub enum CapabilityKind {
    NetworkUrl,
    FilesystemRead,
    FilesystemWrite,
    ForeignCall,
    OsQuery,
}

/// One privileged request: the resource kind, the concrete target, and a
/// human-readable operation name for diagnostics. Stateless value; never
/// retained by the authority.
pub struct CapabilityRequest {
    pub kind: CapabilityKind,
    /// Concrete target (a URL, a path, an OS query kind). A foreign-call
    /// request may carry no path at all.
    pub target: Option<String>,
    /// Operation name used in diagnostics only; it never changes a decision.
    pub op_name: String,
}

/// Verdict of the capability authority for one request. A denial always
/// carries a non-empty reason.
#[derive(Debug)]
pub enum CapabilityDecision {
    Allow,
    Deny { reason: String },
}

impl CapabilityDecision {
    /// The denial reason at the specification level: empty for `Allow`.
    pub open spec fn spec_reason(&self) -> Seq<char> {
        match self {
            CapabilityDecision::Allow => Seq::empty(),
            CapabilityDecision::Deny { reason } => reason@,
        }
    }

    pub fn is_allow(&self) -> (r: bool)
        ensures
            r == (self is Allow),
    {
        match self {
            CapabilityDecision::Allow => true,
            CapabilityDecision::Deny { .. } => false,
        }
    }

    pub fn is_deny(&self) -> (r: bool)
        ensures
            r == (self is Deny),
    {
        match self {
            CapabilityDecision::Allow => false,
            CapabilityDecision::Deny { .. } => true,
        }
    }

    /// The denial reason, or an empty string for an allowance.
    pub fn reason_text(&self) -> (r: String)
        ensures
            r@ == self.spec_reason(),
    {
        match self {
            CapabilityDecision::Allow => String::new(),
            CapabilityDecision::Deny { reason } => reason.clone(),
        }
    }
}

/// The reason attached to every denial of the deny-all authority. The
/// deny-all authority exists for contexts (snapshot construction) where no
/// privileged call may happen at all, so the reason marks the call site as
/// unreachable rather than merely forbidden.
pub open spec fn unreachable_context_reason() -> Seq<char> {
    "permission checks are unreachable in this context"@
}

/// Decides allow or deny for every privileged request. The permit-all
/// variant unconditionally allows; the deny-all variant (used while a
/// snapshot is built, where no real policy exists yet) unconditionally
/// denies with a distinguishable "unreachable in this context" reason, so
/// an accidental privileged call during snapshot build surfaces at once.
/// Copyable by design: a worker inherits its parent's authority by value.
#[derive(Clone, Copy, PartialEq, Eq, Structural, Debug)]
pub enum CapabilityAuthority {
    PermitAll,
    DenyAll,
}

impl CapabilityAuthority {
    /// Whether this authority allows every request.
    pub open spec fn spec_allows(self) -> bool {
        self is PermitAll
    }

    /// Exactly which decision this authority produces: `Allow` under
    /// permit-all, and `Deny` with the fixed non-empty unreachable-context
    /// reason under deny-all.
    pub open spec fn decision_for(self, d: CapabilityDecision) -> bool {
        if self.spec_allows() {
            d is Allow
        } else {
            &&& d matches CapabilityDecision::Deny { reason }
            &&& reason@ == unreachable_context_reason()
            &&& reason@.len() > 0
        }
    }

    /// The single decision function: every per-kind check goes through it.
    pub fn decide(&self, request: &CapabilityRequest) -> (d: CapabilityDecision)
        ensures
            self.decision_for(d),
    {
        match self {
            CapabilityAuthority::PermitAll => CapabilityDecision::Allow,
            CapabilityAuthority::DenyAll => {
                proof {
                    reveal_strlit("permission checks are unreachable in this context");
                }
                CapabilityDecision::Deny {
                    reason: "permission checks are unreachable in this context".to_owned(),
                }
            },
        }
    }

    pub fn check_network(&self, url: String, op_name: String) -> (d: CapabilityDecision)
        ensures
            self.decision_for(d),
    {
        self.decide(&CapabilityRequest { kind: CapabilityKind::NetworkUrl, target: Some(url), op_name })
    }

    pub fn check_read(&self, path: String, op_name: String) -> (d: CapabilityDecision)
        ensures
            self.decision_for(d),
    {
        self.decide(&CapabilityRequest {
            kind: CapabilityKind::FilesystemRead,
            target: Some(path),
            op_name,
        })
    }

    pub fn check_write(&self, path: String, op_name: String) -> (d: CapabilityDecision)
        ensures
            self.decision_for(d),
    {
        self.decide(&CapabilityRequest {
            kind: CapabilityKind::FilesystemWrite,
            target: Some(path),
            op_name,
        })
    }

    pub fn check_foreign_call(&self, path: Option<String>, op_name: String) -> (d:
        CapabilityDecision)
        ensures
            self.decision_for(d),
    {
        self.decide(&CapabilityRequest { kind: CapabilityKind::ForeignCall, target: path, op_name })
    }

    pub fn check_os(&self, kind: String, op_name: String) -> (d: CapabilityDecision)
        ensures
            self.decision_for(d),
    {
        self.decide(&CapabilityRequest { kind: CapabilityKind::OsQuery, target: Some(kind), op_name })
    }
}

/// Error form of a denial, for callers that report failure through
/// `Result` rather than inspecting a decision.
#[derive(Debug)]
pub struct CapabilityError {
    pub reason: String,
}

/// The blanket permit-all permission set installed into a running isolate.
/// Every check grants; the checks exist so that each privileged operation
/// still passes through one auditable gate.
#[derive(Clone)]
pub struct Permissions;

impl Permissions {
    pub fn check_net_url(&mut self, _url: &str, _api_name: &str) -> (r: Result<
        (),
        CapabilityError,
    >)
        ensures
            r is Ok,
            *final(self) == *old(self),
    {
        Ok(())
    }

    pub fn check_read(&mut self, _p: &str, _api_name: &str) -> (r: Result<(), CapabilityError>)
        ensures
            r is Ok,
            *final(self) == *old(self),
    {
        Ok(())
    }

    pub fn allow_hrtime(&mut self) -> (r: bool)
        ensures
            r,
            *final(self) == *old(self),
    {
        true
    }

    pub fn check_partial(&mut self, _path: Option<&str>) -> (r: Result<(), CapabilityError>)
        ensures
            r is Ok,
            *final(self) == *old(self),
    {
        Ok(())
    }

    pub fn check(&mut self, _path: Option<&str>) -> (r: Result<(), CapabilityError>)
        ensures
            r is Ok,
            *final(self) == *old(self),
    {
        Ok(())
    }

    pub fn check_read_with_api_name(&self, _p: &str, _api_name: Option<&str>) -> (r: Result<
        (),
        CapabilityError,
    >)
        ensures
            r is Ok,
    {
        Ok(())
    }

    pub fn check_write_with_api_name(&self, _p: &str, _api_name: Option<&str>) -> (r: Result<
        (),
        CapabilityError,
    >)
        ensures
            r is Ok,
    {
        Ok(())
    }

    pub fn check_sys(&self, _kind: &str, _api_name: &str) -> (r: Result<(), CapabilityError>)
        ensures
            r is Ok,
    {
        Ok(())
    }

    pub fn check_net(&mut self, _host: &(String, Option<u16>), _api_name: &str) -> (r: Result<
        (),
        CapabilityError,
    >)
        ensures
            r is Ok,
            *final(self) == *old(self),
    {
        Ok(())
    }

    pub fn check_write(&mut self, _p: &str, _api_name: &str) -> (r: Result<(), CapabilityError>)
        ensures
            r is Ok,
            *final(self) == *old(self),
    {
        Ok(())
    }

    pub fn check_read_all(&mut self, _api_name: &str) -> (r: Result<(), CapabilityError>)
        ensures
            r is Ok,
            *final(self) == *old(self),
    {
        Ok(())
    }

    pub fn check_read_blind(&mut self, _path: &str, _display: &str, _api_name: &str) -> (r: Result<
        (),
        CapabilityError,
    >)
        ensures
            r is Ok,
            *final(self) == *old(self),
    {
        Ok(())
    }

    pub fn check_write_partial(&mut self, _path: &str, _api_name: &str) -> (r: Result<
        (),
        CapabilityError,
    >)
        ensures
            r is Ok,
            *final(self) == *old(self),
    {
        Ok(())
    }

    pub fn check_write_all(&mut self, _api_name: &str) -> (r: Result<(), CapabilityError>)
        ensures
            r is Ok,
            *final(self) == *old(self),
    {
        Ok(())
    }

    pub fn check_write_blind(&mut self, _path: &str, _display: &str, _api_name: &str) -> (r:
        Result<(), CapabilityError>)
        ensures
            r is Ok,
            *final(self) == *old(self),
    {
        Ok(())
    }
}

} // verus!
