//! Caller-facing fetch options.
//!
//! Site knowledge enters the engine only through these options
//! (`success_selectors`, `user_hint`), never through hard-coded site logic.

use vstd::prelude::*;

verus! {

/// Device shaping for the impersonation grid.
#[derive(Debug, Clone, Copy, PartialEq, Eq, Structural)]
pub enum DeviceClass {
    /// Follow the detected profile's strategy.
    Auto,
    /// Desktop TLS only; no `m.` subdomain transforms.
    Desktop,
    /// Mobile TLS only; `m.` subdomain transforms enabled.
    Mobile,
}

impl Default for DeviceClass {
    fn default() -> (d: Self)
        ensures
            d == DeviceClass::Auto,
    {
        DeviceClass::Auto
    }
}

/// Optional runtime hints, applied to the current call only.
#[derive(Debug, Clone)]
pub struct UserHint {
    /// TLS impersonation target to try first (e.g. `safari_ios`, `chrome`).
    pub impersonate_first: Option<String>,
    /// Referer strategy override (`self_root` | `google_search` | `none`).
    pub referer_strategy: Option<String>,
}

impl Default for UserHint {
    fn default() -> (h: Self)
        ensures
            h.impersonate_first is None,
            h.referer_strategy is None,
    {
        UserHint { impersonate_first: None, referer_strategy: None }
    }
}

/// Inputs to [`crate::fetch`].
#[derive(Debug, Clone)]
pub struct FetchOptions {
    /// CSS selectors proving a real page rendered (strongest positive proof).
    pub success_selectors: Vec<String>,
    pub device_class: DeviceClass,
    pub user_hint: Option<UserHint>,
    pub timeout_secs: u64,
    /// `None` = exhaustive; `Some(n)` = total attempt budget.
    pub max_attempts: Option<u32>,
    pub enable_playwright: bool,
    pub enable_phase0: bool,
    pub enable_learning: bool,
}

impl Default for FetchOptions {
    /// The defaults never cap the attempts silently: `max_attempts` is `None`
    /// (exhaustive), and every escalation stage is enabled.
    fn default() -> (o: Self)
        ensures
            o.success_selectors@.len() == 0,
            o.device_class == DeviceClass::Auto,
            o.user_hint is None,
            o.timeout_secs == 25,
            o.max_attempts is None,
            o.enable_playwright,
            o.enable_phase0,
            o.enable_learning,
    {
        FetchOptions {
            success_selectors: Vec::new(),
            device_class: DeviceClass::Auto,
            user_hint: None,
            timeout_secs: 25,
            max_attempts: None,
            enable_playwright: true,
            enable_phase0: true,
            enable_learning: true,
        }
    }
}

} // verus!
