use ice_daemon::{
    cancel, project, status_of, JobStore, Progress, StatusResponse, Subscription,
};

fn key(s: &str) -> String {
    s.to_string()
}

fn progress(percent: &str) -> Progress {
    Progress { percent: percent.to_string(), speed: "2MiB/s".to_string(), eta: "00:10".to_string() }
}

#[test]
fn completed_job_stays_downloaded() {
    let mut store = JobStore::new();
    let k = key("k");
    assert!(store.try_create(&k));
    store.mark_completed(&k);
    assert_eq!(project(store.snapshot(&k)), StatusResponse::Downloaded);
    assert_eq!(project(store.snapshot(&k)), StatusResponse::Downloaded);
    store.attach_handle(&k, 5);
    store.update_progress(&k, progress("1"));
    assert!(store.try_create(&key("other")));
    assert_eq!(project(store.snapshot(&k)), StatusResponse::Downloaded);
    assert!(store.try_create(&k));
    assert_eq!(project(store.snapshot(&k)), StatusResponse::Downloading { progress: None });
}

#[test]
fn removed_job_shows_absent() {
    let mut store = JobStore::new();
    let k = key("k");
    assert!(store.try_create(&k));
    store.remove(&k);
    assert_eq!(project(store.snapshot(&k)), StatusResponse::Absent);
}

#[test]
fn ping_is_always_absent() {
    let mut store = JobStore::new();
    let ping = key("ping");
    assert_eq!(status_of(&store, &ping), StatusResponse::Absent);
    assert!(store.try_create(&ping));
    assert_eq!(status_of(&store, &ping), StatusResponse::Absent);
    assert_eq!(
        project(store.snapshot(&ping)),
        StatusResponse::Downloading { progress: None }
    );
}

#[test]
fn terminal_statuses() {
    assert!(StatusResponse::Absent.is_terminal());
    assert!(StatusResponse::Downloaded.is_terminal());
    assert!(!StatusResponse::Downloading { progress: None }.is_terminal());
}

#[test]
fn stream_sends_final_downloaded_before_closing() {
    let mut store = JobStore::new();
    let k = key("k");
    assert!(store.try_create(&k));
    let mut sub = Subscription::new();
    assert_eq!(
        sub.deliver(status_of(&store, &k)),
        Some(StatusResponse::Downloading { progress: None })
    );
    assert!(!sub.is_closed());
    store.mark_completed(&k);
    assert_eq!(sub.deliver(status_of(&store, &k)), Some(StatusResponse::Downloaded));
    assert!(sub.is_closed());
    assert_eq!(sub.deliver(status_of(&store, &k)), None);
}

#[test]
fn stream_on_absent_job_sends_one_value() {
    let store = JobStore::new();
    let mut sub = Subscription::new();
    assert_eq!(sub.deliver(status_of(&store, &key("x"))), Some(StatusResponse::Absent));
    assert!(sub.is_closed());
    assert_eq!(sub.deliver(StatusResponse::Downloading { progress: None }), None);
}

#[test]
fn cancel_absent_key_changes_nothing() {
    let mut store = JobStore::new();
    assert!(store.try_create(&key("a")));
    assert_eq!(cancel(&mut store, &key("b")), None);
    assert!(store.contains(&key("a")));
    assert!(!store.contains(&key("b")));
    assert_eq!(cancel(&mut store, &key("b")), None);
}

#[test]
fn cancel_removes_job_and_returns_its_process() {
    let mut store = JobStore::new();
    let k = key("a");
    assert!(store.try_create(&k));
    assert_eq!(cancel(&mut store, &k), None);
    assert!(!store.contains(&k));
    assert!(store.try_create(&k));
    store.attach_handle(&k, 1234);
    assert_eq!(cancel(&mut store, &k), Some(1234));
    assert_eq!(status_of(&store, &k), StatusResponse::Absent);
}
