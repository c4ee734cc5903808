use rustneedle::{Framework, FrameworkInfo, HostMgr, Hook, Ipv4, KnownPair, Mac, Module, PackFilter};
use std::sync::mpsc::channel;

type FwHook = fn(&Vec<String>, &FrameworkInfo) -> Result<Option<Module>, String>;
type HostHook = fn(&Vec<String>, &HostMgr) -> Result<Option<Module>, String>;
type Fw = Framework<FwHook, HostHook>;

fn mgr() -> HostMgr {
    HostMgr::new(
        KnownPair::new(Ipv4(10, 0, 0, 1), Mac(0xAA, 0xAA, 0xAA, 0xAA, 0xAA, 0xAA)),
        KnownPair::new(Ipv4(10, 0, 0, 5), Mac(0xBB, 0xBB, 0xBB, 0xBB, 0xBB, 0xBB)),
    )
}

fn ok_none_host(_args: &Vec<String>, _mgr: &HostMgr) -> Result<Option<Module>, String> {
    Ok(None)
}

fn fail_host(_args: &Vec<String>, _mgr: &HostMgr) -> Result<Option<Module>, String> {
    Err(String::from("boom"))
}

fn scan_host(_args: &Vec<String>, _mgr: &HostMgr) -> Result<Option<Module>, String> {
    let (tx, _rx) = channel::<()>();
    Ok(Some(Module::new(tx, None, PackFilter::Closed)))
}

fn list_fw(_args: &Vec<String>, info: &FrameworkInfo) -> Result<Option<Module>, String> {
    if info.names.is_empty() {
        Err(String::from("no hooks visible"))
    } else {
        Ok(None)
    }
}

#[test]
fn register_collision_keeps_original() {
    let mut fw: Fw = Framework::new(mgr());
    assert!(fw.hook_up("x", Hook::HostMgr(ok_none_host)).is_ok());
    assert!(fw.hook_up("x", Hook::HostMgr(fail_host)).is_err());
    assert_eq!(fw.hooks().len(), 1);
    assert_eq!(fw.names().len(), 1);
    // the original binding still runs: ok_none_host reports "no module"
    assert_eq!(fw.try_run_hook("x", &Vec::new()), Ok(false));
}

#[test]
fn batch_with_one_collision_registers_the_rest() {
    let mut fw: Fw = Framework::new(mgr());
    let entries: Vec<(String, Hook<FwHook, HostHook>)> = vec![
        (String::from("a"), Hook::HostMgr(ok_none_host)),
        (String::from("b"), Hook::HostMgr(ok_none_host)),
        (String::from("a"), Hook::HostMgr(fail_host)),
    ];
    let res = fw.load_batch(entries);
    let msgs = res.unwrap_err();
    assert_eq!(msgs, vec![String::from("a already bound")]);
    // both non-colliding names are registered and invokable
    assert_eq!(fw.try_run_hook("a", &Vec::new()), Ok(false));
    assert_eq!(fw.try_run_hook("b", &Vec::new()), Ok(false));
    assert_eq!(fw.names(), &vec![String::from("a"), String::from("b")]);
}

#[test]
fn batch_without_collision_is_ok() {
    let mut fw: Fw = Framework::new(mgr());
    let entries: Vec<(String, Hook<FwHook, HostHook>)> = vec![
        (String::from("a"), Hook::HostMgr(ok_none_host)),
        (String::from("b"), Hook::HostMgr(fail_host)),
    ];
    assert_eq!(fw.load_batch(entries), Ok(()));
    assert_eq!(fw.hooks().len(), 2);
}

#[test]
fn invoke_missing_hook_is_an_error() {
    let mut fw: Fw = Framework::new(mgr());
    fw.hook_up("present", Hook::HostMgr(ok_none_host)).unwrap();
    let res = fw.try_run_hook("missing", &Vec::new());
    assert_eq!(res, Err(String::from("missing: No such hook")));
    // no registry changed
    assert_eq!(fw.hooks().len(), 1);
    assert_eq!(fw.names().len(), 1);
    assert_eq!(fw.modules().len(), 0);
}

#[test]
fn invoke_without_module_reports_false() {
    let mut fw: Fw = Framework::new(mgr());
    fw.hook_up("quiet", Hook::HostMgr(ok_none_host)).unwrap();
    assert_eq!(fw.try_run_hook("quiet", &Vec::new()), Ok(false));
    assert_eq!(fw.modules().len(), 0);
}

#[test]
fn hook_failure_passes_message_through() {
    let mut fw: Fw = Framework::new(mgr());
    fw.hook_up("bad", Hook::HostMgr(fail_host)).unwrap();
    assert_eq!(fw.try_run_hook("bad", &Vec::new()), Err(String::from("boom")));
    assert_eq!(fw.modules().len(), 0);
}

#[test]
fn repeated_module_hook_gets_numeric_suffixes() {
    let mut fw: Fw = Framework::new(mgr());
    fw.hook_up("scan", Hook::HostMgr(scan_host)).unwrap();
    assert_eq!(fw.try_run_hook("scan", &Vec::new()), Ok(true));
    assert_eq!(fw.try_run_hook("scan", &Vec::new()), Ok(true));
    let keys: Vec<&str> = fw.modules().iter().map(|p| p.0.as_str()).collect();
    assert_eq!(keys, vec!["scan", "scan_0"]);
    // both instances stay simultaneously addressable
    assert_eq!(fw.modules().len(), 2);
}

#[test]
fn module_suffixes_count_in_decimal() {
    let mut fw: Fw = Framework::new(mgr());
    fw.hook_up("scan", Hook::HostMgr(scan_host)).unwrap();
    for _ in 0..12 {
        assert_eq!(fw.try_run_hook("scan", &Vec::new()), Ok(true));
    }
    let keys: Vec<&str> = fw.modules().iter().map(|p| p.0.as_str()).collect();
    assert_eq!(
        keys,
        vec![
            "scan", "scan_0", "scan_1", "scan_2", "scan_3", "scan_4", "scan_5", "scan_6",
            "scan_7", "scan_8", "scan_9", "scan_10"
        ]
    );
}

#[test]
fn framework_scoped_hook_sees_registry_names() {
    let mut fw: Fw = Framework::new(mgr());
    fw.hook_up("list", Hook::Framework(list_fw)).unwrap();
    // the snapshot handed to the hook holds the registered names
    assert_eq!(fw.try_run_hook("list", &Vec::new()), Ok(false));
}

#[test]
fn stop_module_signals_and_removes() {
    let mut fw: Fw = Framework::new(mgr());
    let (tx, rx) = channel::<()>();
    let module = Module::new(tx, None, PackFilter::Closed);
    fw.hook_up("svc", Hook::HostMgr(ok_none_host)).unwrap();
    // place the module directly through a module-producing run
    fw.hook_up("spawn", Hook::HostMgr(scan_host)).unwrap();
    assert_eq!(fw.try_run_hook("spawn", &Vec::new()), Ok(true));
    assert_eq!(fw.modules().len(), 1);
    // a name that is not registered is refused
    match fw.stop_module("nosuch") {
        Err(msg) => assert_eq!(msg, String::from("nosuch: No such module")),
        Ok(_) => panic!("expected an unknown-module error"),
    }
    let stopped = fw.stop_module("spawn").unwrap();
    assert_eq!(fw.modules().len(), 0);
    drop(stopped);
    // stopping the same name twice is refused
    assert!(fw.stop_module("spawn").is_err());
    // a stop signal reaches a worker that still listens
    assert!(module.signal_stop());
    assert_eq!(rx.try_recv(), Ok(()));
}

#[test]
fn who_hook_reads_identities_without_altering_them() {
    let gate = KnownPair::new(Ipv4(10, 0, 0, 1), Mac(0xAA, 0xAA, 0xAA, 0xAA, 0xAA, 0xAA));
    let me = KnownPair::new(Ipv4(10, 0, 0, 5), Mac(0xBB, 0xBB, 0xBB, 0xBB, 0xBB, 0xBB));
    let mut fw: Fw = Framework::new(HostMgr::new(gate, me));

    fn who(_args: &Vec<String>, mgr: &HostMgr) -> Result<Option<Module>, String> {
        let gate = mgr.acquire_gateway();
        let me = mgr.acquire_myself();
        if gate.proto == Ipv4(10, 0, 0, 1) && gate.hardw == Mac(0xAA, 0xAA, 0xAA, 0xAA, 0xAA, 0xAA)
            && me.proto == Ipv4(10, 0, 0, 5) && me.hardw == Mac(0xBB, 0xBB, 0xBB, 0xBB, 0xBB, 0xBB)
        {
            Ok(None)
        } else {
            Err(String::from("unexpected identities"))
        }
    }
    fw.hook_up("who", Hook::HostMgr(who as HostHook)).unwrap();
    assert_eq!(fw.try_run_hook("who", &Vec::new()), Ok(false));
    // the identities are unchanged after the run
    assert_eq!(fw.hosts().acquire_gateway(), gate);
    assert_eq!(fw.hosts().acquire_myself(), me);
}
