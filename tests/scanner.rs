use graph_builder::scanner::{RegistryScanner, MAX_REPO_SCANS};

#[test]
fn new_scanner_trims_registry() {
    let s = RegistryScanner::new(30, "https://quay.io", "redhat/test".to_string(), None, None);
    assert_eq!(s.config().hostname, "quay.io");
    assert_eq!(s.config().repository, "redhat/test");
    assert_eq!(s.period_secs(), 30);
    assert_eq!(s.in_flight(), 0);
}

#[test]
fn oldest_scan_is_cancelled_beyond_the_cap() {
    let mut s = RegistryScanner::new(30, "quay.io", "r".to_string(), None, None);
    for i in 0..MAX_REPO_SCANS {
        let st = s.start_scan();
        assert_eq!(st.started, i as u64);
        assert!(st.cancelled.is_none());
    }
    assert_eq!(s.in_flight(), MAX_REPO_SCANS);
    let st = s.start_scan();
    assert_eq!(st.cancelled, Some(0));
    assert_eq!(st.started, MAX_REPO_SCANS as u64);
    assert_eq!(s.in_flight(), MAX_REPO_SCANS);
    s.finish_scan(3);
    assert_eq!(s.in_flight(), MAX_REPO_SCANS - 1);
    let st = s.start_scan();
    assert!(st.cancelled.is_none());
}
