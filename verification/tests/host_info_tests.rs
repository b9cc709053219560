use loom::host_info::{cpu_line, footer_line, os_line};
use loom::host_info::{HostInfo, Probe, ProbeFocus};

#[test]
fn info_tab_probes_the_focused_pane_once() {
    let mut h: HostInfo<u32> = HostInfo::new();
    assert!(!h.ensure(None));
    assert_eq!(h.error.as_deref(), Some("No session open"));
    assert!(h.ensure(Some(4)));
    let p = h.refresh(Some(ProbeFocus { pane: 4, sftp: true, local: false }));
    assert_eq!(p, Some(Probe::Ssh(4)));
    h.probe_started(4, true);
    assert!(h.loading);
    assert!(!h.ensure(Some(4)));
    h.probe_reply(Some(Ok(99)));
    assert_eq!(h.snapshot, Some(99));
    assert!(!h.loading);
    assert!(!h.ensure(Some(4)));
    assert!(h.ensure(Some(5)));
    assert_eq!(h.refresh(Some(ProbeFocus { pane: 5, sftp: false, local: true })), Some(Probe::Local(5)));
    assert_eq!(h.refresh(Some(ProbeFocus { pane: 6, sftp: false, local: false })), None);
    assert_eq!(h.error.as_deref(), Some("Connect SSH to refresh host info"));
    h.probe_started(6, false);
    assert_eq!(h.error.as_deref(), Some("SSH session unavailable"));
    assert!(!h.loading);
    h.probe_started(6, true);
    h.probe_reply(None);
    assert_eq!(h.error.as_deref(), Some("Host probe cancelled"));
    h.probe_reply(Some(Err(String::from("no /proc"))));
    assert_eq!(h.error.as_deref(), Some("no /proc"));
    h.reset();
    assert_eq!(h.snapshot, None);
    assert_eq!(h.pane, None);
}

#[test]
fn info_lines() {
    assert_eq!(os_line("Ubuntu 24.04", "6.8.0"), "Ubuntu 24.04 · 6.8.0");
    assert_eq!(os_line("macOS", ""), "macOS");
    assert_eq!(cpu_line("Ryzen 7", 16), "Ryzen 7 · 16 cores");
    assert_eq!(cpu_line("", 4), "— · 4 cores");
    assert_eq!(footer_line(Some("0.10 0.20 0.30"), "3d 4h"), "Load 0.10 0.20 0.30 · Up 3d 4h");
    assert_eq!(footer_line(Some(""), "5m"), "Up 5m");
    assert_eq!(footer_line(None, "5m"), "Up 5m");
}
