use lorax::tasks::{LoraxSchedulerTask, ServerDeletionTask, TestingServer, UserSettings};

fn server(id: &str, at: i64) -> TestingServer {
    TestingServer { server_id: id.to_string(), deletion_time: at }
}

#[test]
fn user_settings_default_allows_one_server() {
    let u = UserSettings::default();
    assert!(u.modrinth_id.is_none());
    assert!(u.testing_servers.is_empty());
    assert_eq!(u.max_testing_servers, 1);
}

#[test]
fn scheduler_runs_every_minute() {
    assert_eq!(LoraxSchedulerTask::new().interval(), 60);
    assert_eq!(ServerDeletionTask::new().interval(), 60);
}

#[test]
fn expired_servers_are_taken_out_in_order() {
    let task = ServerDeletionTask::new();
    let mut servers = vec![server("a", 100), server("b", 300), server("c", 200), server("d", 50)];
    let gone = task.collect_expired(&mut servers, 200);
    assert_eq!(gone, vec!["a".to_string(), "c".to_string(), "d".to_string()]);
    assert_eq!(servers.len(), 1);
    assert_eq!(servers[0].server_id, "b");
    assert_eq!(servers[0].deletion_time, 300);
}

#[test]
fn nothing_expires_before_its_time() {
    let task = ServerDeletionTask::new();
    let mut servers = vec![server("a", 100)];
    assert!(task.collect_expired(&mut servers, 99).is_empty());
    assert_eq!(servers.len(), 1);
    let mut none: Vec<TestingServer> = Vec::new();
    assert!(task.collect_expired(&mut none, 0).is_empty());
}
