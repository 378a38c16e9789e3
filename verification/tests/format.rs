use openlist_core::data::{CreateProcessRequest, EnvVar, ProcessError};
use openlist_core::json::parse_configs;
use openlist_core::manager::{default_log_name, CoreManager};
use openlist_core::paths::{
    get_config_dir, get_config_file_path, get_working_directory, should_auto_start, Platform,
    CONFIG_FILE_NAME,
};
use openlist_core::spawn::{
    build_banner, build_ps_command, escape_ps_arg, mode_with_exec, needs_exec_permission,
    plan_spawn,
};
use openlist_core::term::{
    after_grace_check, after_interrupt, kill_outcome, taskkill_outcome, TermStep,
    TERMINATION_GRACE_MS,
};

#[test]
fn rendered_document_matches_canonical_form() {
    let mut m = CoreManager::new();
    let rq = CreateProcessRequest {
        name: String::from("Test Process"),
        bin_path: String::from("/bin/true"),
        args: None,
        log_file: Some(String::from("test.log")),
        working_dir: None,
        env_vars: None,
        auto_restart: None,
        run_as_admin: None,
    };
    m.create_process_at(rq, String::from("test-id"), 1640995100, true).unwrap();
    let expected = "[
  {
    \"id\": \"test-id\",
    \"name\": \"Test Process\",
    \"bin_path\": \"/bin/true\",
    \"args\": [],
    \"log_file\": \"test.log\",
    \"working_dir\": null,
    \"env_vars\": null,
    \"auto_restart\": false,
    \"run_as_admin\": false,
    \"created_at\": 1640995100,
    \"updated_at\": 1640995100
  }
]";
    assert_eq!(m.save_config(), expected);
}

#[test]
fn rendered_document_with_collections_and_escapes() {
    let mut m = CoreManager::new();
    let rq = CreateProcessRequest {
        name: String::from("quote \" slash \\ nl \n tab \t bell \u{0007}"),
        bin_path: String::from("/bin/true"),
        args: Some(vec![String::from("a"), String::from("b c")]),
        log_file: Some(String::from("l.log")),
        working_dir: Some(String::from("/w")),
        env_vars: Some(vec![EnvVar { key: String::from("K"), value: String::from("V") }]),
        auto_restart: Some(true),
        run_as_admin: None,
    };
    m.create_process_at(rq, String::from("i"), 5, true).unwrap();
    let expected = "[\n  {\n    \"id\": \"i\",\n    \"name\": \"quote \\\" slash \\\\ nl \\n tab \\t bell \\u0007\",\n    \"bin_path\": \"/bin/true\",\n    \"args\": [\n      \"a\",\n      \"b c\"\n    ],\n    \"log_file\": \"l.log\",\n    \"working_dir\": \"/w\",\n    \"env_vars\": {\n      \"K\": \"V\"\n    },\n    \"auto_restart\": true,\n    \"run_as_admin\": false,\n    \"created_at\": 5,\n    \"updated_at\": 5\n  }\n]";
    assert_eq!(m.save_config(), expected);
    let parsed = parse_configs(expected).unwrap();
    assert_eq!(parsed.len(), 1);
    assert_eq!(parsed[0].name, "quote \" slash \\ nl \n tab \t bell \u{0007}");
    assert_eq!(parsed[0].args, vec![String::from("a"), String::from("b c")]);
}

#[test]
fn parser_rejects_trailing_garbage_and_bad_fields() {
    assert!(parse_configs("[] trailing").is_none());
    assert!(parse_configs("[").is_none());
    assert!(parse_configs("{}").is_none());
    assert!(parse_configs("[{\"id\": 5}]").is_none());
}

#[test]
fn parser_accepts_only_the_canonical_rendering() {
    // The same entries in a hand-reformatted layout: refused, since
    // only the canonical rendering is accepted.
    let text = " [ { \"id\" : \"x\" ,\n \"name\" : \"n\" , \"bin_path\" : \"/b\" , \"args\" : [ \"a\" , \"b\" ] , \"log_file\" : \"l\" , \"working_dir\" : null , \"env_vars\" : { \"K\" : \"V\" } , \"auto_restart\" : true , \"run_as_admin\" : false , \"created_at\" : 3 , \"updated_at\" : 4 } ] ";
    assert!(parse_configs(text).is_none());
}

#[test]
fn parser_requires_canonical_field_order() {
    let text = "[{\"name\": \"n\", \"id\": \"x\", \"bin_path\": \"/b\", \"args\": [], \"log_file\": \"l\", \"working_dir\": null, \"env_vars\": null, \"auto_restart\": false, \"run_as_admin\": false, \"created_at\": 1, \"updated_at\": 1}]";
    assert!(parse_configs(text).is_none());
}

#[test]
fn default_log_name_embeds_id() {
    assert_eq!(default_log_name("abc"), "process_abc.log");
}

#[test]
fn config_dir_per_platform() {
    let d = get_config_dir(
        Platform::Linux,
        None,
        None,
        Some(String::from("/home/u")),
        Some(String::from("/home/u/.cfg")),
    )
    .unwrap();
    assert_eq!(d, "/home/u/.cfg/openlist-service");
    let d2 = get_config_dir(Platform::Linux, None, None, Some(String::from("/home/u")), None)
        .unwrap();
    assert_eq!(d2, "/home/u/.config/openlist-service");
    let d3 = get_config_dir(Platform::MacOs, None, None, Some(String::from("/Users/u")), None)
        .unwrap();
    assert_eq!(d3, "/Users/u/Library/Application Support/OpenListService");
    let d4 = get_config_dir(
        Platform::Windows,
        Some(String::from("C:\\Users\\u\\AppData\\Roaming")),
        None,
        None,
        None,
    )
    .unwrap();
    assert_eq!(d4, "C:\\Users\\u\\AppData\\Roaming\\OpenListService");
    let d5 = get_config_dir(Platform::Windows, None, Some(String::from("C:\\Users\\u")), None, None)
        .unwrap();
    assert_eq!(d5, "C:\\Users\\u\\AppData\\Roaming\\OpenListService");
    let e = get_config_dir(Platform::Linux, None, None, None, None);
    assert!(matches!(e, Err(ProcessError::PersistenceError)));
}

#[test]
fn config_file_path_appends_file_name() {
    assert_eq!(CONFIG_FILE_NAME, "process_configs.json");
    assert_eq!(get_config_file_path("/etc/x"), "/etc/x/process_configs.json");
}

#[test]
fn auto_start_policy() {
    assert!(should_auto_start(None));
    assert!(should_auto_start(Some(&String::from("true"))));
    assert!(should_auto_start(Some(&String::from("1"))));
    assert!(!should_auto_start(Some(&String::from("false"))));
    assert!(!should_auto_start(Some(&String::from("0"))));
    assert!(!should_auto_start(Some(&String::from("yes"))));
}

#[test]
fn working_directory_policy() {
    assert_eq!(get_working_directory(Platform::Linux, "/bin/true"), "/bin");
    assert_eq!(
        get_working_directory(Platform::Linux, "/usr/local/bin/svc"),
        "/usr/local/bin"
    );
    assert_eq!(get_working_directory(Platform::Linux, "/true"), "/");
    assert_eq!(get_working_directory(Platform::Linux, "/"), ".");
    assert_eq!(get_working_directory(Platform::Linux, "relative/path"), ".");
    assert_eq!(get_working_directory(Platform::Linux, ""), ".");
    // Trailing separators are ignored: the parent of the path, not the
    // path itself.
    assert_eq!(get_working_directory(Platform::Linux, "/opt/app/"), "/opt");
    assert_eq!(get_working_directory(Platform::Linux, "/opt/app//"), "/opt");
    // Windows-family absolute forms.
    assert_eq!(
        get_working_directory(Platform::Windows, "C:\\tools\\x.exe"),
        "C:\\tools"
    );
    assert_eq!(get_working_directory(Platform::Windows, "C:\\x.exe"), "C:\\");
    assert_eq!(get_working_directory(Platform::Windows, "C:/x.exe"), "C:/");
    assert_eq!(get_working_directory(Platform::Windows, "C:\\"), ".");
    assert_eq!(
        get_working_directory(Platform::Windows, "\\\\srv\\share\\x.exe"),
        "\\\\srv\\share"
    );
    assert_eq!(get_working_directory(Platform::Windows, "x.exe"), ".");
    // A backslash path is not absolute outside the Windows family.
    assert_eq!(get_working_directory(Platform::Linux, "C:\\x.exe"), ".");
}

#[test]
fn banner_spells_out_command_and_flag() {
    let args = vec![String::from("a"), String::from("b")];
    assert_eq!(
        build_banner("/bin/x", &args, true),
        "Spawning process: /bin/x a b (admin: true)"
    );
    let none: Vec<String> = Vec::new();
    assert_eq!(
        build_banner("/bin/x", &none, false),
        "Spawning process: /bin/x  (admin: false)"
    );
}

#[test]
fn powershell_escaping_doubles_quotes() {
    assert_eq!(escape_ps_arg("it's"), "it''s");
    assert_eq!(escape_ps_arg("plain"), "plain");
    assert_eq!(escape_ps_arg(""), "");
}

#[test]
fn powershell_command_forms() {
    let none: Vec<String> = Vec::new();
    assert_eq!(
        build_ps_command("C:\\x.exe", &none),
        "Start-Process -FilePath 'C:\\x.exe' -Verb RunAs -WindowStyle Hidden"
    );
    let args = vec![String::from("a"), String::from("it's")];
    assert_eq!(
        build_ps_command("C:\\x.exe", &args),
        "Start-Process -FilePath 'C:\\x.exe' -ArgumentList @('a', 'it''s') -Verb RunAs -WindowStyle Hidden"
    );
}

#[test]
fn spawn_plan_elevation_policy() {
    let args = vec![String::from("-v")];
    let direct = plan_spawn(Platform::Linux, "/bin/x", &args, false, true);
    assert_eq!(direct.program, "/bin/x");
    assert_eq!(direct.args, args);
    assert_eq!(direct.working_dir, "/bin");

    let sudo = plan_spawn(Platform::Linux, "/bin/x", &args, true, true);
    assert_eq!(sudo.program, "sudo");
    assert_eq!(sudo.args, vec![String::from("/bin/x"), String::from("-v")]);

    let degraded = plan_spawn(Platform::MacOs, "/bin/x", &args, true, false);
    assert_eq!(degraded.program, "/bin/x");
    assert_eq!(degraded.args, args);

    let elevated = plan_spawn(Platform::Windows, "C:\\x.exe", &args, true, false);
    assert_eq!(elevated.program, "powershell");
    assert_eq!(elevated.args.len(), 2);
    assert_eq!(elevated.args[0], "-Command");
    assert_eq!(
        elevated.args[1],
        "Start-Process -FilePath 'C:\\x.exe' -ArgumentList @('-v') -Verb RunAs -WindowStyle Hidden"
    );
    assert_eq!(
        elevated.banner,
        "Spawning process: C:\\x.exe -v (admin: true)"
    );
}

#[test]
fn exec_permission_bits() {
    assert!(needs_exec_permission(0o644));
    assert!(!needs_exec_permission(0o744));
    assert_eq!(mode_with_exec(0o644), 0o755);
    assert_eq!(mode_with_exec(0o600), 0o755);
    assert!(!needs_exec_permission(mode_with_exec(0o644)));
}

#[test]
fn termination_escalation_steps() {
    assert_eq!(TERMINATION_GRACE_MS, 1000);
    assert_eq!(after_interrupt(true), TermStep::WaitAndCheck);
    assert_eq!(after_interrupt(false), TermStep::CheckNow);
    assert_eq!(after_grace_check(false), TermStep::Finished);
    assert_eq!(after_grace_check(true), TermStep::SendKill);
}

#[test]
fn already_exited_pid_terminates_cleanly() {
    // Interrupt delivery fails because the process is gone; the check
    // still runs, finds nothing, and the protocol finishes without a
    // forceful kill.
    let step = after_interrupt(false);
    assert_eq!(step, TermStep::CheckNow);
    assert_eq!(after_grace_check(false), TermStep::Finished);
}

#[test]
fn kill_outcome_carries_diagnostics() {
    assert!(kill_outcome(true, "").is_ok());
    match kill_outcome(false, "No such process") {
        Err(ProcessError::TerminationError(m)) => assert_eq!(m, "No such process"),
        _ => panic!("expected a termination error"),
    }
}

#[test]
fn taskkill_outcome_decodes_console_bytes() {
    assert!(taskkill_outcome(true, &[]).is_ok());
    match taskkill_outcome(false, &[0xD6, 0xD0, 0x21]) {
        Err(ProcessError::TerminationError(m)) => assert_eq!(m, "\u{4E2D}!"),
        _ => panic!("expected a termination error"),
    }
}
