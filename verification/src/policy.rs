//! What an agent may do, as far as delegation compares it.

use vstd::prelude::*;

use crate::text;

verus! {

/// Whether an agent may delegate at all.
#[derive(Debug, Clone, Copy, PartialEq, Eq, Structural)]
pub enum DelegationMode {
    Allow,
    Forbidden,
}

/// The operator's switch for delegation.
#[derive(Debug, Clone, Copy, PartialEq, Eq, Structural)]
pub struct DelegationPolicy {
    pub mode: DelegationMode,
}

impl DelegationPolicy {
    /// Whether the switch is on.
    pub open spec fn permits_spec(self) -> bool {
        self.mode == DelegationMode::Allow
    }

    /// Whether the switch is on.
    pub fn permits(&self) -> (r: bool)
        ensures
            r == self.permits_spec(),
    {
        self.mode == DelegationMode::Allow
    }
}

impl Default for DelegationPolicy {
    fn default() -> (r: Self)
        ensures
            r.mode == DelegationMode::Forbidden,
    {
        DelegationPolicy { mode: DelegationMode::Forbidden }
    }
}

/// The policy that an agent runs under.
pub struct SecurityPolicy {
    /// Name of the risk profile that the policy comes from.
    pub risk_profile_name: String,
    /// Whether the agent may delegate.
    pub delegation_policy: DelegationPolicy,
    /// Tools that may be used; `None` means no allowlist.
    pub allowed_tools: Option<Vec<String>>,
    /// Tools that may not be used.
    pub excluded_tools: Option<Vec<String>>,
    /// Tools that run without an approval prompt; `*` stands for all.
    pub auto_approve: Vec<String>,
    /// Tools that always ask for approval; `*` stands for all.
    pub always_ask: Vec<String>,
    /// Whether commands run in a sandbox; unset leaves it active.
    pub sandbox_enabled: Option<bool>,
    /// Sandbox backend; unset resolves to `auto`.
    pub sandbox_backend: Option<String>,
    /// Extra arguments for the firejail backend, which does not forward them.
    pub firejail_args: Vec<String>,
    /// Directories outside the workspace that may be read and written.
    pub allowed_roots: Vec<String>,
    /// Directories outside the workspace that may be read.
    pub allowed_roots_read_only: Vec<String>,
    /// Directories outside the workspace that may be written.
    pub allowed_roots_write_only: Vec<String>,
    /// Whether file access is confined to the workspace and the roots.
    pub workspace_only: bool,
    /// The action and cost budget that the agent's actions count against.
    pub tracker: u64,
}

impl Default for SecurityPolicy {
    fn default() -> (r: Self)
        ensures
            r.risk_profile_name@ == Seq::<char>::empty(),
            !r.delegation_policy.permits_spec(),
            r.allowed_tools is None,
            r.excluded_tools is None,
            r.auto_approve@ == Seq::<String>::empty(),
            r.always_ask@ == Seq::<String>::empty(),
            r.sandbox_enabled is None,
            r.sandbox_backend is None,
            r.firejail_args@ == Seq::<String>::empty(),
            r.allowed_roots@ == Seq::<String>::empty(),
            r.allowed_roots_read_only@ == Seq::<String>::empty(),
            r.allowed_roots_write_only@ == Seq::<String>::empty(),
            r.workspace_only,
            r.tracker == 0,
    {
        SecurityPolicy {
            risk_profile_name: String::new(),
            delegation_policy: DelegationPolicy::default(),
            allowed_tools: None,
            excluded_tools: None,
            auto_approve: Vec::new(),
            always_ask: Vec::new(),
            sandbox_enabled: None,
            sandbox_backend: None,
            firejail_args: Vec::new(),
            allowed_roots: Vec::new(),
            allowed_roots_read_only: Vec::new(),
            allowed_roots_write_only: Vec::new(),
            workspace_only: true,
            tracker: 0,
        }
    }
}

/// The normalised name of a sandbox backend setting: unset, blank and unknown
/// ones resolve to `auto`; case and surrounding whitespace do not count.
pub open spec fn backend_token(setting: Option<Seq<char>>) -> Seq<char> {
    match setting {
        None => "auto"@,
        Some(raw) => {
            let name = text::lowered(text::trimmed(raw));
            if name == "landlock"@ {
                "landlock"@
            } else if name == "firejail"@ {
                "firejail"@
            } else if name == "bubblewrap"@ {
                "bubblewrap"@
            } else if name == "docker"@ {
                "docker"@
            } else if name == "sandbox-exec"@ || name == "sandboxexec"@ || name == "seatbelt"@ {
                "sandbox-exec"@
            } else if name == "none"@ {
                "none"@
            } else {
                "auto"@
            }
        },
    }
}

impl SecurityPolicy {
    /// Whether a tool is on the allowlist, where there is one, and not excluded.
    pub open spec fn may_use(self, tool: Seq<char>) -> bool {
        &&& match self.allowed_tools {
            Some(allowed) => allowed.deep_view().contains(tool),
            None => true,
        }
        &&& match self.excluded_tools {
            Some(excluded) => !excluded.deep_view().contains(tool),
            None => true,
        }
    }

    /// Whether a tool runs without an approval prompt.
    pub open spec fn auto_approves(self, tool: Seq<char>) -> bool {
        self.auto_approve.deep_view().contains("*"@) || self.auto_approve.deep_view().contains(tool)
    }

    /// Whether a tool always asks for approval.
    pub open spec fn always_asks(self, tool: Seq<char>) -> bool {
        self.always_ask.deep_view().contains("*"@) || self.always_ask.deep_view().contains(tool)
    }

    /// The normalised sandbox backend.
    pub open spec fn backend(self) -> Seq<char> {
        backend_token(text::optional(self.sandbox_backend))
    }

    /// Whether commands run in a real sandbox.
    pub open spec fn sandboxed(self) -> bool {
        self.backend() != "none"@ && self.sandbox_enabled != Some(false)
    }

    /// Whether a tool is on the allowlist, where there is one, and not excluded.
    pub fn is_tool_allowed(&self, tool: &str) -> (r: bool)
        ensures
            r == self.may_use(tool@),
    {
        if let Some(allowed) = &self.allowed_tools {
            if !text::listed(allowed, tool) {
                return false;
            }
        }
        if let Some(excluded) = &self.excluded_tools {
            if text::listed(excluded, tool) {
                return false;
            }
        }
        true
    }
}

} // verus!
