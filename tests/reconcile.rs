use spirit_tokio::config::{tcp_items, udp_items, Empty, TcpExtra, TcpListen, UdpListen};
use spirit_tokio::diagnostic::{Diagnostic, Severity};
use spirit_tokio::listen::Listen;
use spirit_tokio::reconcile::{holds_instance, resource_in_use, retired, Install, Item, Reconciler};
use spirit_tokio::scale::{Scale, Singleton};

fn name() -> String {
    "Listener".to_string()
}

fn tcp(port: u16, host: Option<&str>, scale: usize) -> TcpListen<Empty, Scale> {
    let listen = match host {
        Some(h) => Listen::new(port, h.to_string()),
        None => Listen::on_port(port),
    };
    TcpListen::new(listen, Scale::new(scale), Empty {})
}

fn ids(r: &Reconciler<TcpExtra<Empty>>, entry: usize) -> Vec<u64> {
    r.cache.entries[entry].instances.clone()
}

#[test]
fn scenario_reload_scale_and_coerce() {
    let mut rec: Reconciler<TcpExtra<Empty>> = Reconciler::new(name());

    // Fresh load: two sockets, one instance each.
    let items = tcp_items(vec![tcp(1234, None, 1), tcp(5678, Some("localhost"), 1)], &name());
    assert_eq!(rec.needs_build(&items), vec![true, true]);
    let pass = rec.reconcile(items, &vec![Some(10), Some(20)]);
    assert!(pass.diagnostics.is_empty());
    assert!(pass.is_accepted());
    let commit = rec.commit(pass).expect("accepted");
    assert_eq!(
        commit.installs,
        vec![Install { entry: 0, instance: 0 }, Install { entry: 1, instance: 1 }]
    );
    assert!(commit.retired.is_empty());
    assert_eq!(rec.cache.entries.len(), 2);
    assert_eq!(rec.cache.entries[1].descriptor.host(), "localhost");

    // Reload: only the first socket, scaled to three.
    let items = tcp_items(vec![tcp(1234, None, 3)], &name());
    assert_eq!(rec.needs_build(&items), vec![false]);
    let pass = rec.reconcile(items, &vec![None]);
    assert!(pass.diagnostics.is_empty());
    let commit = rec.commit(pass).expect("accepted");
    assert_eq!(rec.cache.entries.len(), 1);
    assert_eq!(rec.cache.entries[0].resource, 10);
    assert_eq!(ids(&rec, 0), vec![0, 2, 3]);
    assert_eq!(
        commit.installs,
        vec![Install { entry: 0, instance: 2 }, Install { entry: 0, instance: 3 }]
    );
    assert_eq!(commit.retired, vec![1]);

    // Reload with scale zero: coerced to one instance, with a warning.
    let items = tcp_items(vec![tcp(1234, None, 0)], &name());
    let pass = rec.reconcile(items, &vec![None]);
    assert_eq!(pass.diagnostics.len(), 1);
    assert_eq!(pass.diagnostics[0].severity(), Severity::Warning);
    assert!(matches!(&pass.diagnostics[0], Diagnostic::ScaleCoerced { name } if name == "Listener"));
    let commit = rec.commit(pass).expect("a warning does not reject");
    assert_eq!(rec.cache.entries.len(), 1);
    assert_eq!(ids(&rec, 0), vec![0]);
    assert!(commit.installs.is_empty());
    assert_eq!(commit.retired, vec![2, 3]);
}

#[test]
fn same_configuration_twice_changes_nothing() {
    let mut rec: Reconciler<TcpExtra<Empty>> = Reconciler::new(name());
    let cfg = || tcp_items(vec![tcp(1, None, 2), tcp(2, None, 1)], &name());
    let pass = rec.reconcile(cfg(), &vec![Some(5), Some(6)]);
    rec.commit(pass).expect("accepted");
    let before: Vec<Vec<u64>> = rec.cache.entries.iter().map(|e| e.instances.clone()).collect();
    let next = rec.cache.next_instance;

    let items = cfg();
    assert_eq!(rec.needs_build(&items), vec![false, false]);
    let pass = rec.reconcile(items, &vec![None, None]);
    assert!(pass.installs.is_empty());
    let commit = rec.commit(pass).expect("accepted");
    assert!(commit.installs.is_empty());
    assert!(commit.retired.is_empty());
    let after: Vec<Vec<u64>> = rec.cache.entries.iter().map(|e| e.instances.clone()).collect();
    assert_eq!(before, after);
    assert_eq!(rec.cache.next_instance, next);
    assert_eq!(rec.cache.entries[0].resource, 5);
    assert_eq!(rec.cache.entries[1].resource, 6);
}

#[test]
fn every_entry_runs_its_scale() {
    let rec: Reconciler<TcpExtra<Empty>> = Reconciler::new(name());
    let items = tcp_items(vec![tcp(1, None, 4), tcp(2, None, 0), tcp(3, None, 1)], &name());
    let pass = rec.reconcile(items, &vec![Some(1), Some(2), Some(3)]);
    let lens: Vec<usize> = pass.cache.entries.iter().map(|e| e.instances.len()).collect();
    assert_eq!(lens, vec![4, 1, 1]);
    assert_eq!(pass.installs.len(), 6);
}

#[test]
fn extra_change_replaces_all_instances() {
    let mut rec: Reconciler<u64> = Reconciler::new(name());
    let item = |extra: u64| Item {
        descriptor: Listen::on_port(80),
        extra,
        scale: 2,
        diagnostics: Vec::new(),
    };
    let pass = rec.reconcile(vec![item(1)], &vec![Some(9)]);
    rec.commit(pass).expect("accepted");
    assert_eq!(rec.cache.entries[0].instances, vec![0, 1]);

    let pass = rec.reconcile(vec![item(2)], &vec![None]);
    let commit = rec.commit(pass).expect("accepted");
    assert_eq!(rec.cache.entries[0].instances, vec![2, 3]);
    assert_eq!(rec.cache.entries[0].resource, 9);
    assert_eq!(rec.cache.entries[0].extra, 2);
    assert_eq!(commit.retired, vec![0, 1]);
    assert_eq!(commit.installs.len(), 2);
}

#[test]
fn tcp_settings_change_counts_as_extra_change() {
    let mut rec: Reconciler<TcpExtra<Empty>> = Reconciler::new(name());
    let pass = rec.reconcile(tcp_items(vec![tcp(7, None, 1)], &name()), &vec![Some(1)]);
    rec.commit(pass).expect("accepted");
    let mut changed = tcp(7, None, 1);
    changed.max_conn = 5;
    let pass = rec.reconcile(tcp_items(vec![changed], &name()), &vec![None]);
    let commit = rec.commit(pass).expect("accepted");
    assert_eq!(commit.retired, vec![0]);
    assert_eq!(commit.installs, vec![Install { entry: 0, instance: 1 }]);
}

#[test]
fn scale_down_keeps_the_first_instances() {
    let mut rec: Reconciler<TcpExtra<Empty>> = Reconciler::new(name());
    let pass = rec.reconcile(tcp_items(vec![tcp(7, None, 3)], &name()), &vec![Some(1)]);
    rec.commit(pass).expect("accepted");
    let pass = rec.reconcile(tcp_items(vec![tcp(7, None, 1)], &name()), &vec![None]);
    let commit = rec.commit(pass).expect("accepted");
    assert_eq!(ids(&rec, 0), vec![0]);
    assert_eq!(commit.retired, vec![1, 2]);
    assert!(commit.installs.is_empty());
}

#[test]
fn build_failure_is_isolated() {
    let mut rec: Reconciler<TcpExtra<Empty>> = Reconciler::new(name());
    let items = tcp_items(vec![tcp(1, None, 2), tcp(2, None, 1)], &name());
    let pass = rec.reconcile(items, &vec![Some(4), None]);
    assert_eq!(pass.cache.entries.len(), 1);
    assert_eq!(pass.cache.entries[0].descriptor.port(), 1);
    assert_eq!(pass.cache.entries[0].instances, vec![0, 1]);
    assert_eq!(pass.diagnostics.len(), 1);
    assert_eq!(pass.diagnostics[0].severity(), Severity::Error);
    match &pass.diagnostics[0] {
        Diagnostic::BuildFailed { name, descriptor } => {
            assert_eq!(name, "Listener");
            assert_eq!(descriptor.port(), 2);
        }
        other => panic!("unexpected diagnostic {:?}", other),
    }
    // A failed build does not reject the pass: the other descriptor is committed and installed.
    assert!(pass.is_accepted());
    let commit = rec.commit(pass).expect("accepted");
    assert_eq!(
        commit.installs,
        vec![Install { entry: 0, instance: 0 }, Install { entry: 0, instance: 1 }]
    );
    assert_eq!(rec.cache.entries.len(), 1);
    assert_eq!(rec.cache.entries[0].resource, 4);
}

#[test]
fn fatal_diagnostic_rejects_the_pass() {
    let mut rec: Reconciler<TcpExtra<Empty>> = Reconciler::new(name());
    let pass = rec.reconcile(tcp_items(vec![tcp(1, None, 1)], &name()), &vec![Some(1)]);
    rec.commit(pass).expect("accepted");
    let mut items = tcp_items(vec![tcp(2, None, 1)], &name());
    items[0].diagnostics.push(Diagnostic::Invalid { name: name(), message: "bad".to_string() });
    let (commit, diags) = rec.validate(items, &vec![Some(2)]);
    assert!(commit.is_none());
    assert_eq!(diags.len(), 1);
    assert_eq!(diags[0].severity(), Severity::Fatal);
    assert_eq!(rec.cache.entries.len(), 1);
    assert_eq!(rec.cache.entries[0].descriptor.port(), 1);
    assert_eq!(rec.cache.next_instance, 1);
}

#[test]
fn validate_commits_and_reports() {
    let mut task = TcpListen::<Empty, Scale>::helper(name());
    let items = tcp_items(vec![tcp(1, None, 2), tcp(2, None, 1)], &task.reconciler.name);
    let (commit, diags) = task.reconciler.validate(items, &vec![Some(7), None]);
    let commit = commit.expect("a failed build is not fatal");
    assert_eq!(diags.len(), 1);
    assert_eq!(commit.installs.len(), 2);
    assert!(resource_in_use(&task.reconciler.cache, 7));
    assert!(!resource_in_use(&task.reconciler.cache, 8));
    let (commit, diags) = task.reconciler.validate(Vec::new(), &Vec::new());
    assert!(diags.is_empty());
    assert_eq!(commit.expect("accepted").retired, vec![0, 1]);
    assert!(!resource_in_use(&task.reconciler.cache, 7));
}

#[test]
fn failure_first_does_not_hold_back_the_second() {
    let rec: Reconciler<TcpExtra<Empty>> = Reconciler::new(name());
    let items = tcp_items(vec![tcp(2, None, 1), tcp(1, None, 1)], &name());
    let pass = rec.reconcile(items, &vec![None, Some(4)]);
    assert_eq!(pass.cache.entries.len(), 1);
    assert_eq!(pass.cache.entries[0].descriptor.port(), 1);
    assert_eq!(pass.installs, vec![Install { entry: 0, instance: 0 }]);
    assert_eq!(pass.diagnostics.len(), 1);
}

#[test]
fn empty_configuration_retires_everything() {
    let mut rec: Reconciler<TcpExtra<Empty>> = Reconciler::new(name());
    let pass = rec.reconcile(tcp_items(vec![tcp(1, None, 2)], &name()), &vec![Some(1)]);
    rec.commit(pass).expect("accepted");
    let pass = rec.reconcile(Vec::new(), &Vec::new());
    let commit = rec.commit(pass).expect("accepted");
    assert_eq!(commit.retired, vec![0, 1]);
    assert!(rec.cache.entries.is_empty());
}

#[test]
fn equal_descriptors_differ_by_host() {
    let a = Listen::new(80, "localhost".to_string());
    let b = Listen::on_port(80);
    assert!(!a.same(&b));
    assert!(a.same(&a.duplicate()));
    assert_eq!(b.host(), "::");
    assert_eq!(Listen::default().port(), 0);
    assert_eq!(Listen::default().host(), "::");
}

#[test]
fn retired_and_holds() {
    let rec: Reconciler<u64> = Reconciler::new(name());
    let item = |port: u16, scale: usize| Item {
        descriptor: Listen::on_port(port),
        extra: 0u64,
        scale,
        diagnostics: Vec::new(),
    };
    let first = rec.reconcile(vec![item(1, 2), item(2, 1)], &vec![Some(1), Some(2)]);
    assert!(holds_instance(&first.cache.entries, 2));
    assert!(!holds_instance(&first.cache.entries, 3));
    let empty = Reconciler::<u64>::new(name());
    assert_eq!(retired(&first.cache, &empty.cache), vec![0, 1, 2]);
    assert!(retired(&empty.cache, &first.cache).is_empty());
}

#[test]
fn udp_items_carry_extra_and_scale() {
    let cfg = UdpListen { listen: Listen::on_port(53), scale: Singleton {}, extra_cfg: "dns".to_string() };
    let items = udp_items(vec![cfg], &name());
    assert_eq!(items.len(), 1);
    assert_eq!(items[0].scale, 1);
    assert_eq!(items[0].extra, "dns");
    assert!(items[0].diagnostics.is_empty());
}

#[test]
fn tcp_defaults() {
    let t = tcp(1, None, 1);
    assert_eq!(t.error_sleep_ms, 100);
    assert_eq!(t.max_conn, 1000);
    let item = t.item(&name());
    assert_eq!(item.extra.error_sleep_ms, 100);
    assert_eq!(item.extra.max_conn, 1000);
}
