use vstd::prelude::*;

verus! {

/// The clipboard-control manager version tried first; it carries the primary
/// selection.
pub const PREFERRED_VERSION: u32 = 2;

/// The version tried when the compositor offers only an older manager.
pub const FALLBACK_VERSION: u32 = 1;

/// How an attempt to bind the clipboard-control manager at one version ended.
#[derive(Debug, PartialEq, Eq, Structural)]
pub enum BindOutcome {
    Bound,
    VersionTooLow,
    Missing,
}

/// What startup does after an attempt to bind the manager.
#[derive(Debug, PartialEq, Eq, Structural)]
pub enum ManagerStep {
    /// Keep the manager bound at `version`.
    Use { version: u32, supports_primary: bool },
    /// Try again at `version`.
    Retry { version: u32 },
    /// No supported manager: startup fails.
    Fail,
}

/// Negotiates the manager version: the preferred version when it binds, else
/// the fallback version when the compositor's manager is too old for the
/// preferred one; anything else fails. Only the preferred version supports the
/// primary selection.
pub fn next_manager_step(version: u32, outcome: BindOutcome) -> (r: ManagerStep)
    requires
        version == PREFERRED_VERSION || version == FALLBACK_VERSION,
    ensures
        outcome == BindOutcome::Bound ==> r == (ManagerStep::Use {
            version,
            supports_primary: version == PREFERRED_VERSION,
        }),
        outcome == BindOutcome::VersionTooLow && version == PREFERRED_VERSION ==> r == (
        ManagerStep::Retry { version: FALLBACK_VERSION }),
        outcome == BindOutcome::VersionTooLow && version == FALLBACK_VERSION ==> r
            == ManagerStep::Fail,
        outcome == BindOutcome::Missing ==> r == ManagerStep::Fail,
{
    match outcome {
        BindOutcome::Bound => ManagerStep::Use {
            version,
            supports_primary: version == PREFERRED_VERSION,
        },
        BindOutcome::VersionTooLow => {
            if version == PREFERRED_VERSION {
                ManagerStep::Retry { version: FALLBACK_VERSION }
            } else {
                ManagerStep::Fail
            }
        },
        BindOutcome::Missing => ManagerStep::Fail,
    }
}

} // verus!
