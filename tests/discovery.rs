use http_discovery_service::{
    collect_attributes, DiscoveredService, DiscoveryState, InstanceEvent, Registry,
    ResolvedService, TypeEvent, TypeWatcher,
};

const HTTP: &str = "_http._tcp.local.";
const PRINTER: &str = "printer1._http._tcp.local.";

fn printer(port: u16) -> ResolvedService {
    ResolvedService {
        fullname: PRINTER.to_string(),
        hostname: "printer1.local.".to_string(),
        port,
        addresses: vec!["192.168.1.5".to_string()],
        properties: vec![("path".to_string(), "/".to_string())],
    }
}

fn removal(fullname: &str) -> InstanceEvent {
    InstanceEvent::Removed { service_type: HTTP.to_string(), fullname: fullname.to_string() }
}

fn check_printer(s: &DiscoveredService, port: u16, last_seen: u64) {
    assert_eq!(s.service_type, HTTP);
    assert_eq!(s.fullname, PRINTER);
    assert_eq!(s.hostname, "printer1.local.");
    assert_eq!(s.port, port);
    assert_eq!(s.ips, vec!["192.168.1.5".to_string()]);
    assert_eq!(s.txt_records, vec![("path".to_string(), "/".to_string())]);
    assert_eq!(s.last_seen, last_seen);
}

#[test]
fn resolve_gives_one_record() {
    let state = DiscoveryState::new();
    state.handle_event(&HTTP.to_string(), InstanceEvent::Resolved(printer(80)), 1000);
    let all = state.get_services();
    assert_eq!(all.len(), 1);
    check_printer(&all[0], 80, 1000);
}

#[test]
fn resolve_again_replaces_record() {
    let state = DiscoveryState::new();
    let ty = HTTP.to_string();
    state.handle_event(&ty, InstanceEvent::Resolved(printer(80)), 1000);
    state.handle_event(&ty, InstanceEvent::Resolved(printer(8080)), 1005);
    let all = state.get_services();
    assert_eq!(all.len(), 1);
    check_printer(&all[0], 8080, 1005);
}

#[test]
fn remove_after_resolve_empties_registry() {
    let state = DiscoveryState::new();
    let ty = HTTP.to_string();
    state.handle_event(&ty, InstanceEvent::Resolved(printer(80)), 1000);
    state.handle_event(&ty, InstanceEvent::Resolved(printer(8080)), 1001);
    state.handle_event(&ty, removal(PRINTER), 1002);
    assert!(state.get_services().is_empty());
}

#[test]
fn repeated_type_announcement_starts_one_watcher() {
    let mut watcher = TypeWatcher::new();
    let found = || TypeEvent::Found {
        service_type: "_services._dns-sd._udp.local.".to_string(),
        fullname: HTTP.to_string(),
    };
    let mut started: Vec<String> = Vec::new();
    for _ in 0..2 {
        if let Some(t) = watcher.on_event(found()) {
            started.push(t);
        }
    }
    assert_eq!(started, vec![HTTP.to_string()]);
    assert!(watcher.is_known(&HTTP.to_string()));
}

#[test]
fn remove_of_unknown_instance_is_noop() {
    let state = DiscoveryState::new();
    let ty = HTTP.to_string();
    state.handle_event(&ty, removal("ghost._http._tcp.local."), 5);
    assert!(state.get_services().is_empty());
    state.handle_event(&ty, InstanceEvent::Resolved(printer(80)), 1000);
    state.handle_event(&ty, removal("ghost._http._tcp.local."), 1001);
    let all = state.get_services();
    assert_eq!(all.len(), 1);
    check_printer(&all[0], 80, 1000);
}

#[test]
fn last_of_many_resolves_wins() {
    let mut reg = Registry::new();
    let ty = HTTP.to_string();
    for (i, port) in [80u16, 81, 82, 9000].iter().enumerate() {
        reg.handle_event(&ty, InstanceEvent::Resolved(printer(*port)), 100 + i as u64);
    }
    let all = reg.snapshot();
    assert_eq!(all.len(), 1);
    check_printer(&all[0], 9000, 103);
}

#[test]
fn other_events_are_ignored() {
    let mut reg = Registry::new();
    let ty = HTTP.to_string();
    reg.handle_event(&ty, InstanceEvent::Other, 1);
    assert!(reg.snapshot().is_empty());
    let mut watcher = TypeWatcher::new();
    assert!(watcher.on_event(TypeEvent::Other).is_none());
    assert!(!watcher.is_known(&HTTP.to_string()));
}

#[test]
fn distinct_types_each_start_once() {
    let mut watcher = TypeWatcher::new();
    let ev = |t: &str| TypeEvent::Found { service_type: String::new(), fullname: t.to_string() };
    assert_eq!(watcher.on_event(ev("_http._tcp.local.")), Some("_http._tcp.local.".to_string()));
    assert_eq!(watcher.on_event(ev("_ipp._tcp.local.")), Some("_ipp._tcp.local.".to_string()));
    assert_eq!(watcher.on_event(ev("_http._tcp.local.")), None);
    assert_eq!(watcher.on_event(ev("_ipp._tcp.local.")), None);
}

#[test]
fn duplicate_attribute_keys_keep_last_value() {
    let pairs = vec![
        ("a".to_string(), "1".to_string()),
        ("b".to_string(), "2".to_string()),
        ("a".to_string(), "3".to_string()),
    ];
    let out = collect_attributes(pairs);
    assert_eq!(out.len(), 2);
    assert!(out.contains(&("a".to_string(), "3".to_string())));
    assert!(out.contains(&("b".to_string(), "2".to_string())));
}

#[test]
fn resolved_record_takes_fields_and_dedups_attributes() {
    let mut info = printer(631);
    info.properties.push(("path".to_string(), "/ipp".to_string()));
    let r = DiscoveredService::from_resolved("_ipp._tcp.local.".to_string(), info, 42);
    assert_eq!(r.service_type, "_ipp._tcp.local.");
    assert_eq!(r.port, 631);
    assert_eq!(r.txt_records, vec![("path".to_string(), "/ipp".to_string())]);
    assert_eq!(r.last_seen, 42);
    let c = r.copy_record();
    assert_eq!(c.fullname, r.fullname);
    assert_eq!(c.txt_records, r.txt_records);
}

#[test]
fn update_and_remove_by_name() {
    let state = DiscoveryState::new();
    let a = DiscoveredService::from_resolved(HTTP.to_string(), printer(80), 1);
    let mut other = printer(81);
    other.fullname = "printer2._http._tcp.local.".to_string();
    let b = DiscoveredService::from_resolved(HTTP.to_string(), other, 2);
    state.update_service(a);
    state.update_service(b);
    assert_eq!(state.get_services().len(), 2);
    state.remove_service(PRINTER);
    let all = state.get_services();
    assert_eq!(all.len(), 1);
    assert_eq!(all[0].fullname, "printer2._http._tcp.local.");
    let shared = state.clone();
    shared.remove_service("printer2._http._tcp.local.");
    assert!(state.get_services().is_empty());
}

#[test]
fn registry_upsert_and_remove_keep_other_entries() {
    let mut reg = Registry::new();
    let mut names = Vec::new();
    for i in 0..5u16 {
        let mut info = printer(i);
        info.fullname = format!("p{}._http._tcp.local.", i);
        names.push(info.fullname.clone());
        reg.upsert(DiscoveredService::from_resolved(HTTP.to_string(), info, i as u64));
    }
    reg.remove(&names[2]);
    reg.remove(&names[2]);
    let all = reg.snapshot();
    assert_eq!(all.len(), 4);
    for (i, n) in names.iter().enumerate() {
        let hits: Vec<&DiscoveredService> = all.iter().filter(|s| &s.fullname == n).collect();
        if i == 2 {
            assert!(hits.is_empty());
        } else {
            assert_eq!(hits.len(), 1);
            assert_eq!(hits[0].port, i as u16);
        }
    }
}

#[test]
fn clones_share_one_registry() {
    let state = DiscoveryState::new();
    let writers: Vec<DiscoveryState> = (0..4).map(|_| state.clone()).collect();
    for k in 0..50u16 {
        for (w, s) in writers.iter().enumerate() {
            let port = w as u16 * 1000 + k;
            let mut info = printer(port);
            info.hostname = format!("host{}", port);
            s.handle_event(&HTTP.to_string(), InstanceEvent::Resolved(info), k as u64);
            for r in state.get_services().iter() {
                assert_eq!(r.hostname, format!("host{}", r.port));
            }
        }
    }
    let all = state.get_services();
    assert_eq!(all.len(), 1);
    assert_eq!(all[0].port, 3049);
    assert_eq!(all[0].hostname, "host3049");
}
