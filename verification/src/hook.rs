use vstd::prelude::*;
use crate::hostmgr::HostMgr;
use crate::module::Module;

verus! {

/// What a hook invocation returns: success with a started background
/// module to track, success with nothing left running, or failure with
/// an opaque message that is passed through to the operator verbatim.
pub type HookOutcome = Result<Option<Module>, String>;

/// The read-only view of the framework handed to a framework-scoped
/// hook: the registered hook names in registration order, the names of
/// the running modules in registration order, and a shared handle onto
/// the host state.
pub struct FrameworkInfo {
    pub names: Vec<String>,
    pub module_names: Vec<String>,
    pub hosts: HostMgr,
}

/// A named capability-scoped plugin entry point, chosen at registration
/// time by the level of access its author declared it needs: a
/// framework-scoped hook sees the whole framework's read-only view, a
/// host-scoped hook sees only the shared host state.
pub enum Hook<F, H> {
    Framework(F),
    HostMgr(H),
}

/// The callable behind the hook accepts every argument list and every
/// context it may be handed; this is the one demand the framework places
/// on a plugin's entry point.
pub open spec fn hook_total<F, H>(h: &Hook<F, H>) -> bool where
    F: Fn(&Vec<String>, &FrameworkInfo) -> HookOutcome,
    H: Fn(&Vec<String>, &HostMgr) -> HookOutcome,
 {
    match h {
        Hook::Framework(f) => forall|a: &Vec<String>, v: &FrameworkInfo| call_requires(*f, (a, v)),
        Hook::HostMgr(g) => forall|a: &Vec<String>, m: &HostMgr| call_requires(*g, (a, m)),
    }
}

} // verus!
