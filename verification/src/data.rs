//! The data model: persisted launch configuration, transient runtime
//! state, request and response shapes, and the error kinds.

use vstd::prelude::*;

verus! {

/// Sentinel stored in `ProcessRuntime::running_pid` when no process is
/// recorded.
pub const INVALID_PID: i64 = -1;

/// One entry of an optional environment mapping.
pub struct EnvVar {
    pub key: String,
    pub value: String,
}

/// Persisted launch configuration of one managed process.
pub struct ProcessConfig {
    pub id: String,
    pub name: String,
    pub bin_path: String,
    pub args: Vec<String>,
    pub log_file: String,
    pub working_dir: Option<String>,
    pub env_vars: Option<Vec<EnvVar>>,
    pub auto_restart: bool,
    pub run_as_admin: bool,
    pub created_at: u64,
    pub updated_at: u64,
}

/// Transient runtime state of one managed process; never persisted.
#[derive(Clone, Copy)]
pub struct ProcessRuntime {
    pub is_running: bool,
    pub running_pid: i64,
    pub started_at: Option<u64>,
    pub restart_count: u32,
    pub last_exit_code: i32,
}

impl ProcessRuntime {
    /// The all-clear state a runtime record starts in.
    pub open spec fn spec_fresh() -> ProcessRuntime {
        (ProcessRuntime {
            is_running: false,
            running_pid: INVALID_PID as i64,
            started_at: None,
            restart_count: 0,
            last_exit_code: 0,
        })
    }

    pub fn fresh() -> (r: ProcessRuntime)
        ensures
            r == ProcessRuntime::spec_fresh(),
    {
        ProcessRuntime {
            is_running: false,
            running_pid: INVALID_PID,
            started_at: None,
            restart_count: 0,
            last_exit_code: 0,
        }
    }
}

/// Request to create a new managed process; unset fields take defaults.
pub struct CreateProcessRequest {
    pub name: String,
    pub bin_path: String,
    pub args: Option<Vec<String>>,
    pub log_file: Option<String>,
    pub working_dir: Option<String>,
    pub env_vars: Option<Vec<EnvVar>>,
    pub auto_restart: Option<bool>,
    pub run_as_admin: Option<bool>,
}

/// Partial-field patch of an existing configuration; absent fields keep
/// their prior value.
pub struct UpdateProcessRequest {
    pub name: Option<String>,
    pub bin_path: Option<String>,
    pub args: Option<Vec<String>>,
    pub log_file: Option<String>,
    pub working_dir: Option<String>,
    pub env_vars: Option<Vec<EnvVar>>,
    pub auto_restart: Option<bool>,
    pub run_as_admin: Option<bool>,
}

/// Joined configuration + runtime snapshot returned by reads.
pub struct ProcessStatus {
    pub id: String,
    pub name: String,
    pub is_running: bool,
    pub pid: Option<u32>,
    pub started_at: Option<u64>,
    pub restart_count: u32,
    pub last_exit_code: Option<i32>,
    pub config: ProcessConfig,
}

/// Recent log output of one managed process.
pub struct LogResponse {
    pub id: String,
    pub name: String,
    pub log_content: String,
    pub total_lines: usize,
    pub fetched_lines: usize,
}

/// The error kinds a lifecycle operation can fail with.
#[derive(Debug)]
pub enum ProcessError {
    /// Unknown process id.
    NotFound,
    /// Missing or invalid binary path.
    ValidationError,
    /// A start was requested while the running flag was already set.
    AlreadyRunning,
    /// The operating system failed to launch the binary.
    SpawnError(String),
    /// The operating system failed to stop the process; the payload is
    /// diagnostic text from the failed command.
    TerminationError(String),
    /// The persisted configuration document could not be read or parsed.
    PersistenceError,
}

/// The contents of an optional environment mapping, as a sequence.
pub open spec fn spec_env_opt(o: Option<Vec<EnvVar>>) -> Option<Seq<EnvVar>> {
    match o {
        Some(v) => Some(v@),
        None => None,
    }
}

/// Field-exact agreement of two configurations. Collection-valued fields
/// are compared by their contents, so a faithful copy of a configuration
/// agrees with its original.
pub open spec fn config_eq(a: ProcessConfig, b: ProcessConfig) -> bool {
    &&& a.id == b.id
    &&& a.name == b.name
    &&& a.bin_path == b.bin_path
    &&& a.args@ == b.args@
    &&& a.log_file == b.log_file
    &&& a.working_dir == b.working_dir
    &&& spec_env_opt(a.env_vars) == spec_env_opt(b.env_vars)
    &&& a.auto_restart == b.auto_restart
    &&& a.run_as_admin == b.run_as_admin
    &&& a.created_at == b.created_at
    &&& a.updated_at == b.updated_at
}

/// How the runtime fields of a status snapshot are derived from a
/// runtime record: a positive recorded pid that fits a `u32` is exposed,
/// and only a non-zero exit code is exposed.
pub open spec fn spec_status_pid(running_pid: i64) -> Option<u32> {
    if 0 < running_pid && running_pid <= u32::MAX as i64 {
        Some(running_pid as u32)
    } else {
        None
    }
}

pub open spec fn spec_status_exit_code(code: i32) -> Option<i32> {
    if code != 0 {
        Some(code)
    } else {
        None
    }
}

/// `st` is the joined snapshot of configuration `c` and runtime record `r`.
pub open spec fn status_matches(st: ProcessStatus, c: ProcessConfig, r: ProcessRuntime) -> bool {
    &&& st.id == c.id
    &&& st.name == c.name
    &&& st.is_running == r.is_running
    &&& st.pid == spec_status_pid(r.running_pid)
    &&& st.started_at == r.started_at
    &&& st.restart_count == r.restart_count
    &&& st.last_exit_code == spec_status_exit_code(r.last_exit_code)
    &&& config_eq(st.config, c)
}

/// The result of applying a partial update to a configuration: every
/// field named by the patch is replaced, every other field keeps its
/// prior value, and `updated_at` is refreshed to `ts`.
pub open spec fn spec_patched(
    c: ProcessConfig,
    r: UpdateProcessRequest,
    ts: u64,
) -> ProcessConfig {
    (ProcessConfig {
        id: c.id,
        name: if r.name is Some { r.name->0 } else { c.name },
        bin_path: if r.bin_path is Some { r.bin_path->0 } else { c.bin_path },
        args: if r.args is Some { r.args->0 } else { c.args },
        log_file: if r.log_file is Some { r.log_file->0 } else { c.log_file },
        working_dir: if r.working_dir is Some { Some(r.working_dir->0) } else { c.working_dir },
        env_vars: if r.env_vars is Some { Some(r.env_vars->0) } else { c.env_vars },
        auto_restart: if r.auto_restart is Some { r.auto_restart->0 } else { c.auto_restart },
        run_as_admin: if r.run_as_admin is Some { r.run_as_admin->0 } else { c.run_as_admin },
        created_at: c.created_at,
        updated_at: ts,
    })
}

impl EnvVar {
    pub fn duplicate(&self) -> (r: EnvVar)
        ensures
            r == *self,
    {
        EnvVar { key: self.key.clone(), value: self.value.clone() }
    }
}

impl ProcessConfig {
    /// An exact copy; unlike a derived `Clone`, the contract states that
    /// every field is preserved.
    pub fn duplicate(&self) -> (r: ProcessConfig)
        ensures
            config_eq(r, *self),
    {
        let r = ProcessConfig {
            id: self.id.clone(),
            name: self.name.clone(),
            bin_path: self.bin_path.clone(),
            args: crate::strutil::clone_string_vec(&self.args),
            log_file: self.log_file.clone(),
            working_dir: clone_opt_string(&self.working_dir),
            env_vars: clone_opt_env_vars(&self.env_vars),
            auto_restart: self.auto_restart,
            run_as_admin: self.run_as_admin,
            created_at: self.created_at,
            updated_at: self.updated_at,
        };
        r
    }
}

pub fn clone_opt_string(o: &Option<String>) -> (r: Option<String>)
    ensures
        r == *o,
{
    match o {
        Some(s) => Some(s.clone()),
        None => None,
    }
}

pub fn clone_opt_env_vars(o: &Option<Vec<EnvVar>>) -> (r: Option<Vec<EnvVar>>)
    ensures
        spec_env_opt(r) == spec_env_opt(*o),
{
    match o {
        Some(v) => {
            let mut out: Vec<EnvVar> = Vec::new();
            let mut i: usize = 0;
            while i < v.len()
                invariant
                    i <= v.len(),
                    out@ =~= v@.subrange(0, i as int),
                decreases v.len() - i,
            {
                out.push(v[i].duplicate());
                i = i + 1;
            }
            proof {
                assert(out@ =~= v@);
            }
            Some(out)
        },
        None => None,
    }
}

} // verus!
