use openlist_core::data::{
    CreateProcessRequest, EnvVar, ProcessError, UpdateProcessRequest,
};
use openlist_core::manager::{CoreManager, StopAction};

fn basic_request(name: &str) -> CreateProcessRequest {
    CreateProcessRequest {
        name: String::from(name),
        bin_path: String::from("/bin/true"),
        args: None,
        log_file: None,
        working_dir: None,
        env_vars: None,
        auto_restart: None,
        run_as_admin: None,
    }
}

fn empty_patch() -> UpdateProcessRequest {
    UpdateProcessRequest {
        name: None,
        bin_path: None,
        args: None,
        log_file: None,
        working_dir: None,
        env_vars: None,
        auto_restart: None,
        run_as_admin: None,
    }
}

#[test]
fn create_mints_distinct_ids_and_fresh_runtime() {
    let mut m = CoreManager::new();
    let a = m.create_process(basic_request("a")).unwrap();
    let b = m.create_process(basic_request("b")).unwrap();
    assert_eq!(a.id.len(), 36);
    assert_eq!(b.id.len(), 36);
    assert_ne!(a.id, b.id);
    let st = m.get_process(&a.id).unwrap();
    assert!(!st.is_running);
    assert_eq!(st.pid, None);
    assert_eq!(st.last_exit_code, None);
    assert_eq!(st.started_at, None);
    assert_eq!(st.restart_count, 0);
    assert_eq!(st.config.name, "a");
    assert_eq!(st.config.bin_path, "/bin/true");
    assert_eq!(st.config.log_file, format!("process_{}.log", a.id));
    assert_eq!(st.config.created_at, st.config.updated_at);
}

#[test]
fn create_missing_binary_is_validation_error() {
    let mut m = CoreManager::new();
    let mut rq = basic_request("a");
    rq.bin_path = String::from("/no/such/binary/exists/here");
    let r = m.create_process(rq);
    assert!(matches!(r, Err(ProcessError::ValidationError)));
    assert_eq!(m.list_processes().unwrap().len(), 0);
}

#[test]
fn create_fills_defaults_and_keeps_explicit_fields() {
    let mut m = CoreManager::new();
    let mut rq = basic_request("svc");
    rq.args = Some(vec![String::from("-p"), String::from("80")]);
    rq.log_file = Some(String::from("svc.log"));
    rq.working_dir = Some(String::from("/tmp"));
    rq.env_vars = Some(vec![EnvVar { key: String::from("K"), value: String::from("V") }]);
    rq.auto_restart = Some(true);
    rq.run_as_admin = Some(true);
    let c = m.create_process_at(rq, String::from("id-1"), 777, true).unwrap();
    assert_eq!(c.id, "id-1");
    assert_eq!(c.args, vec![String::from("-p"), String::from("80")]);
    assert_eq!(c.log_file, "svc.log");
    assert_eq!(c.working_dir.as_deref(), Some("/tmp"));
    assert!(c.auto_restart);
    assert!(c.run_as_admin);
    assert_eq!(c.created_at, 777);
    assert_eq!(c.updated_at, 777);
    let e = c.env_vars.unwrap();
    assert_eq!(e.len(), 1);
    assert_eq!(e[0].key, "K");
    assert_eq!(e[0].value, "V");
}

#[test]
fn update_patches_only_named_fields() {
    let mut m = CoreManager::new();
    let mut rq = basic_request("old-name");
    rq.args = Some(vec![String::from("x")]);
    let c = m.create_process_at(rq, String::from("id-1"), 100, true).unwrap();
    let mut patch = empty_patch();
    patch.name = Some(String::from("new-name"));
    let u = m.update_process_checked("id-1", patch, true, 200).unwrap();
    assert_eq!(u.name, "new-name");
    assert_eq!(u.bin_path, c.bin_path);
    assert_eq!(u.args, c.args);
    assert_eq!(u.log_file, c.log_file);
    assert_eq!(u.working_dir, c.working_dir);
    assert!(u.env_vars.is_none());
    assert_eq!(u.auto_restart, c.auto_restart);
    assert_eq!(u.run_as_admin, c.run_as_admin);
    assert_eq!(u.created_at, 100);
    assert_eq!(u.updated_at, 200);
}

#[test]
fn update_with_wall_clock_refreshes_updated_at() {
    let mut m = CoreManager::new();
    m.create_process_at(basic_request("a"), String::from("id-1"), 0, true).unwrap();
    let mut patch = empty_patch();
    patch.name = Some(String::from("renamed"));
    let u = m.update_process("id-1", patch).unwrap();
    assert_eq!(u.name, "renamed");
    assert_eq!(u.created_at, 0);
    assert!(u.updated_at > 0);
}

#[test]
fn update_unknown_id_is_not_found() {
    let mut m = CoreManager::new();
    let r = m.update_process("missing", empty_patch());
    assert!(matches!(r, Err(ProcessError::NotFound)));
}

#[test]
fn update_with_missing_binary_is_validation_error() {
    let mut m = CoreManager::new();
    m.create_process_at(basic_request("a"), String::from("id-1"), 1, true).unwrap();
    let mut patch = empty_patch();
    patch.bin_path = Some(String::from("/no/such/binary/exists/here"));
    let r = m.update_process("id-1", patch);
    assert!(matches!(r, Err(ProcessError::ValidationError)));
    let st = m.get_process("id-1").unwrap();
    assert_eq!(st.config.bin_path, "/bin/true");
}

#[test]
fn start_commit_then_second_start_already_running() {
    let mut m = CoreManager::new();
    m.create_process_at(basic_request("a"), String::from("id-1"), 1, true).unwrap();
    let plan = m.prepare_start("id-1").unwrap();
    assert_eq!(plan.bin_path, "/bin/true");
    assert_eq!(plan.log_file, "process_id-1.log");
    assert!(!plan.run_as_admin);
    m.commit_start("id-1", 4242).unwrap();
    let st = m.get_process("id-1").unwrap();
    assert!(st.is_running);
    assert_eq!(st.pid, Some(4242));
    assert!(st.started_at.is_some());
    let again = m.prepare_start("id-1");
    assert!(matches!(again, Err(ProcessError::AlreadyRunning)));
    let st2 = m.get_process("id-1").unwrap();
    assert_eq!(st2.pid, Some(4242));
}

#[test]
fn stop_without_recorded_pid_is_trivial_success() {
    let mut m = CoreManager::new();
    m.create_process_at(basic_request("a"), String::from("id-1"), 1, true).unwrap();
    let action = m.stop_process("id-1").unwrap();
    assert!(matches!(action, StopAction::NotRunning));
    let st = m.get_process("id-1").unwrap();
    assert!(!st.is_running);
    assert_eq!(st.pid, None);
    assert_eq!(st.started_at, None);
    assert_eq!(st.restart_count, 0);
    assert_eq!(st.last_exit_code, None);
}

#[test]
fn full_start_stop_cycle_clears_runtime() {
    let mut m = CoreManager::new();
    m.create_process_at(basic_request("a"), String::from("id-1"), 1, true).unwrap();
    m.prepare_start("id-1").unwrap();
    m.commit_start("id-1", 77).unwrap();
    let action = m.stop_process("id-1").unwrap();
    assert!(matches!(action, StopAction::Terminate(77)));
    m.finish_stop("id-1", Ok(())).unwrap();
    let st = m.get_process("id-1").unwrap();
    assert!(!st.is_running);
    assert_eq!(st.pid, None);
    assert_eq!(st.started_at, None);
    assert_eq!(st.last_exit_code, None);
}

#[test]
fn failed_termination_sets_exit_sentinel_and_surfaces_error() {
    let mut m = CoreManager::new();
    m.create_process_at(basic_request("a"), String::from("id-1"), 1, true).unwrap();
    m.commit_start("id-1", 77).unwrap();
    let r = m.finish_stop(
        "id-1",
        Err(ProcessError::TerminationError(String::from("kill failed"))),
    );
    assert!(matches!(r, Err(ProcessError::TerminationError(_))));
    let st = m.get_process("id-1").unwrap();
    assert!(!st.is_running);
    assert_eq!(st.pid, None);
    assert_eq!(st.last_exit_code, Some(-1));
}

#[test]
fn delete_running_process_after_stop_leaves_not_found() {
    let mut m = CoreManager::new();
    m.create_process_at(basic_request("a"), String::from("id-1"), 1, true).unwrap();
    m.commit_start("id-1", 91).unwrap();
    let action = m.stop_process("id-1").unwrap();
    assert!(matches!(action, StopAction::Terminate(91)));
    m.finish_stop("id-1", Ok(())).unwrap();
    let st = m.get_process("id-1").unwrap();
    assert!(!st.is_running);
    m.delete_process("id-1").unwrap();
    assert!(matches!(m.get_process("id-1"), Err(ProcessError::NotFound)));
    assert!(matches!(m.delete_process("id-1"), Err(ProcessError::NotFound)));
}

#[test]
fn list_and_status_count_running() {
    let mut m = CoreManager::new();
    m.create_process_at(basic_request("a"), String::from("id-1"), 1, true).unwrap();
    m.create_process_at(basic_request("b"), String::from("id-2"), 1, true).unwrap();
    m.create_process_at(basic_request("c"), String::from("id-3"), 1, true).unwrap();
    m.commit_start("id-2", 10).unwrap();
    let list = m.list_processes().unwrap();
    assert_eq!(list.len(), 3);
    assert_eq!(list[0].id, "id-1");
    assert_eq!(list[1].id, "id-2");
    assert_eq!(list[2].id, "id-3");
    assert!(list[1].is_running);
    let (total, running) = m.get_openlist_status();
    assert_eq!(total, 3);
    assert_eq!(running, 1);
    let ids = m.process_ids();
    assert_eq!(ids, vec![String::from("id-1"), String::from("id-2"), String::from("id-3")]);
}

#[test]
fn stop_and_get_unknown_ids_are_not_found() {
    let mut m = CoreManager::new();
    assert!(matches!(m.get_process("nope"), Err(ProcessError::NotFound)));
    assert!(matches!(m.stop_process("nope"), Err(ProcessError::NotFound)));
    assert!(matches!(m.prepare_start("nope"), Err(ProcessError::NotFound)));
    assert!(matches!(m.commit_start("nope", 1), Err(ProcessError::NotFound)));
    assert!(matches!(m.finish_stop("nope", Ok(())), Err(ProcessError::NotFound)));
    assert!(matches!(
        m.get_process_logs("nope", None, None),
        Err(ProcessError::NotFound)
    ));
}

#[test]
fn logs_missing_file_is_empty_result() {
    let mut m = CoreManager::new();
    m.create_process_at(basic_request("a"), String::from("id-1"), 1, true).unwrap();
    let lr = m.get_process_logs("id-1", None, None).unwrap();
    assert_eq!(lr.id, "id-1");
    assert_eq!(lr.name, "a");
    assert_eq!(lr.log_content, "");
    assert_eq!(lr.total_lines, 0);
    assert_eq!(lr.fetched_lines, 0);
}

#[test]
fn logs_three_lines_max_ten_returns_all() {
    let mut m = CoreManager::new();
    m.create_process_at(basic_request("a"), String::from("id-1"), 1, true).unwrap();
    let lines = vec![String::from("one"), String::from("two"), String::from("three")];
    let lr = m.get_process_logs("id-1", Some(lines), Some(10)).unwrap();
    assert_eq!(lr.total_lines, 3);
    assert_eq!(lr.fetched_lines, 3);
    assert_eq!(lr.log_content, "one\ntwo\nthree");
}

#[test]
fn logs_tail_respects_max_lines_and_default() {
    let mut m = CoreManager::new();
    m.create_process_at(basic_request("a"), String::from("id-1"), 1, true).unwrap();
    let lines: Vec<String> = (0..5).map(|i| format!("line{}", i)).collect();
    let lr = m.get_process_logs("id-1", Some(lines.clone()), Some(2)).unwrap();
    assert_eq!(lr.total_lines, 5);
    assert_eq!(lr.fetched_lines, 2);
    assert_eq!(lr.log_content, "line3\nline4");
    let lr2 = m.get_process_logs("id-1", Some(lines), None).unwrap();
    assert_eq!(lr2.fetched_lines, 5);
    assert_eq!(lr2.log_content, "line0\nline1\nline2\nline3\nline4");
}

#[test]
fn save_then_load_reproduces_configs_exactly() {
    let mut m = CoreManager::new();
    let mut rq = basic_request("tricky \"name\" with \\ and \nnewline\ttab");
    rq.args = Some(vec![String::from("--flag"), String::from("va'l"), String::from("")]);
    rq.working_dir = Some(String::from("/tmp/dir"));
    rq.env_vars = Some(vec![
        EnvVar { key: String::from("PATH"), value: String::from("/usr/bin") },
        EnvVar { key: String::from("EMPTY"), value: String::from("") },
    ]);
    m.create_process_at(rq, String::from("id-1"), 1640995100, true).unwrap();
    let mut rq2 = basic_request("plain");
    rq2.auto_restart = Some(true);
    m.create_process_at(rq2, String::from("id-2"), 7, true).unwrap();

    let text = m.save_config();
    let mut fresh = CoreManager::new();
    let count = fresh.load_config(&text).unwrap();
    assert_eq!(count, 2);

    let old_list = m.list_processes().unwrap();
    let new_list = fresh.list_processes().unwrap();
    assert_eq!(old_list.len(), new_list.len());
    for (a, b) in old_list.iter().zip(new_list.iter()) {
        assert_eq!(a.config.id, b.config.id);
        assert_eq!(a.config.name, b.config.name);
        assert_eq!(a.config.bin_path, b.config.bin_path);
        assert_eq!(a.config.args, b.config.args);
        assert_eq!(a.config.log_file, b.config.log_file);
        assert_eq!(a.config.working_dir, b.config.working_dir);
        assert_eq!(a.config.auto_restart, b.config.auto_restart);
        assert_eq!(a.config.run_as_admin, b.config.run_as_admin);
        assert_eq!(a.config.created_at, b.config.created_at);
        assert_eq!(a.config.updated_at, b.config.updated_at);
        match (&a.config.env_vars, &b.config.env_vars) {
            (None, None) => {}
            (Some(x), Some(y)) => {
                assert_eq!(x.len(), y.len());
                for (p, q) in x.iter().zip(y.iter()) {
                    assert_eq!(p.key, q.key);
                    assert_eq!(p.value, q.value);
                }
            }
            _ => panic!("env_vars differ"),
        }
        assert!(!b.is_running);
        assert_eq!(b.pid, None);
    }
}

#[test]
fn load_rejects_malformed_document() {
    let mut m = CoreManager::new();
    let r = m.load_config("this is not a configuration document");
    assert!(matches!(r, Err(ProcessError::PersistenceError)));
    assert_eq!(m.list_processes().unwrap().len(), 0);
}

#[test]
fn load_empty_document_yields_empty_store() {
    let mut m = CoreManager::new();
    assert_eq!(m.save_config(), "[]");
    let mut fresh = CoreManager::new();
    assert_eq!(fresh.load_config("[]").unwrap(), 0);
    assert_eq!(fresh.list_processes().unwrap().len(), 0);
    // Only the canonical rendering is accepted: a reformatted empty
    // document is refused.
    assert!(matches!(
        fresh.load_config(" [ ] "),
        Err(ProcessError::PersistenceError)
    ));
}
