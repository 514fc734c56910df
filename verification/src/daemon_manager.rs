//! How the daemon is being managed: under systemd supervision, or run directly.

use vstd::prelude::*;

verus! {

/// How the daemon is being managed.
#[derive(Clone, Copy, PartialEq, Eq, Debug, Structural)]
pub enum DaemonManager {
    /// Managed by a systemd user service (`systemctl --user`).
    Systemd,
    /// Direct execution (not under systemd).
    Direct,
}

impl DaemonManager {
    /// Decide the manager from what the environment showed: whether the
    /// `pwsw.service` unit file exists, and whether `INVOCATION_ID` is set.
    /// Only both together mean supervision by systemd, since `INVOCATION_ID` is
    /// set for every process of a systemd user session.
    pub fn decide(service_installed: bool, invocation_id_set: bool) -> (m: DaemonManager)
        ensures
            m == (if service_installed && invocation_id_set {
                DaemonManager::Systemd
            } else {
                DaemonManager::Direct
            }),
    {
        if service_installed && invocation_id_set {
            DaemonManager::Systemd
        } else {
            DaemonManager::Direct
        }
    }
}

} // verus!
