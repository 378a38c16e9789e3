//! The process lifecycle manager: a registry pairing each persisted
//! configuration with its transient runtime record, and the start / stop
//! state transitions.
//!
//! The registry itself performs no operating-system work. Starting and
//! stopping are split into a decision step and a commit step: the caller
//! asks what to do (`prepare_start`, `stop_process`), performs the spawn
//! or termination outside, and records the outcome (`commit_start`,
//! `finish_stop`). The embedding program serialises concurrent callers
//! with a lock around the whole manager, so the check-then-act pairs
//! below are atomic with respect to one another.

use vstd::prelude::*;
use crate::data::{ProcessConfig, ProcessRuntime, CreateProcessRequest, UpdateProcessRequest, ProcessStatus, LogResponse, ProcessError, INVALID_PID, config_eq, spec_env_opt, spec_patched, spec_status_pid, spec_status_exit_code, status_matches};
use crate::strutil::clone_string_vec;
use crate::sys;

verus! {

/// Default number of log lines returned when the caller gives no count.
pub const DEFAULT_LOG_LINES: usize = 100;

/// What a caller must do to start a process, as decided by
/// `prepare_start`: ensure the binary is executable, open the log file in
/// append mode, and spawn.
pub struct StartPlan {
    pub bin_path: String,
    pub args: Vec<String>,
    pub log_file: String,
    pub run_as_admin: bool,
}

/// What a caller must do to stop a process, as decided by `stop_process`.
pub enum StopAction {
    /// No process is recorded: stopping is a no-op, not an error.
    NotRunning,
    /// Terminate the recorded pid, then report back with `finish_stop`.
    Terminate(u32),
}

pub struct CoreManager {
    configs: Vec<ProcessConfig>,
    runtimes: Vec<ProcessRuntime>,
}

impl CoreManager {
    /// The configuration table, in insertion order.
    pub closed spec fn config_seq(self) -> Seq<ProcessConfig> {
        self.configs@
    }

    /// The runtime table, positionally aligned with the configurations.
    pub closed spec fn runtime_seq(self) -> Seq<ProcessRuntime> {
        self.runtimes@
    }

    /// Well-formedness: the two tables are 1:1, ids are unique, and every
    /// recorded pid fits the operating-system pid range.
    pub open spec fn wf(self) -> bool {
        &&& self.config_seq().len() == self.runtime_seq().len()
        &&& forall|i: int, j: int|
            0 <= i < j < self.config_seq().len() ==> self.config_seq()[i].id@
                != self.config_seq()[j].id@
        &&& forall|i: int|
            0 <= i < self.runtime_seq().len() ==> #[trigger] self.runtime_seq()[i].running_pid
                <= u32::MAX as i64
    }

    /// Whether some configuration carries the given id.
    pub open spec fn has_id(self, id: Seq<char>) -> bool {
        exists|i: int| 0 <= i < self.config_seq().len() && self.config_seq()[i].id@ == id
    }

    /// The position of the configuration carrying the given id; under
    /// `wf` it is unique.
    pub open spec fn idx_of(self, id: Seq<char>) -> int {
        choose|i: int| 0 <= i < self.config_seq().len() && self.config_seq()[i].id@ == id
    }

    pub open spec fn config_of(self, id: Seq<char>) -> ProcessConfig {
        self.config_seq()[self.idx_of(id)]
    }

    pub open spec fn runtime_of(self, id: Seq<char>) -> ProcessRuntime {
        self.runtime_seq()[self.idx_of(id)]
    }

    /// Any position holding the given id is the position `idx_of` names.
    pub proof fn lemma_idx(self, id: Seq<char>, i: int)
        requires
            self.wf(),
            0 <= i < self.config_seq().len(),
            self.config_seq()[i].id@ == id,
        ensures
            self.has_id(id),
            self.idx_of(id) == i,
    {
        assert(self.has_id(id));
        let j = self.idx_of(id);
        assert(0 <= j < self.config_seq().len() && self.config_seq()[j].id@ == id);
        if i < j {
            assert(self.config_seq()[i].id@ != self.config_seq()[j].id@);
        } else if j < i {
            assert(self.config_seq()[j].id@ != self.config_seq()[i].id@);
        }
    }

    pub fn new() -> (r: CoreManager)
        ensures
            r.wf(),
            r.config_seq().len() == 0,
            r.runtime_seq().len() == 0,
    {
        CoreManager { configs: Vec::new(), runtimes: Vec::new() }
    }

    /// Linear scan for the configuration carrying `id`.
    fn find_index(&self, id: &str) -> (r: Option<usize>)
        requires
            self.wf(),
        ensures
            match r {
                Some(i) => self.has_id(id@) && i == self.idx_of(id@),
                None => !self.has_id(id@),
            },
    {
        let needle = String::from_str(id);
        let mut k: usize = 0;
        while k < self.configs.len()
            invariant
                self.wf(),
                k <= self.configs.len(),
                needle@ == id@,
                forall|j: int| 0 <= j < k ==> self.config_seq()[j].id@ != id@,
            decreases self.configs.len() - k,
        {
            if self.configs[k].id == needle {
                proof {
                    self.lemma_idx(id@, k as int);
                }
                return Some(k);
            }
            k = k + 1;
        }
        None
    }

    /// Replaces the configuration at `i`, leaving the runtime table as it
    /// is.
    fn set_config(&mut self, i: usize, c: ProcessConfig)
        requires
            i < old(self).config_seq().len(),
        ensures
            final(self).config_seq() == old(self).config_seq().update(i as int, c),
            final(self).runtime_seq() == old(self).runtime_seq(),
    {
        self.configs.remove(i);
        self.configs.insert(i, c);
        proof {
            assert(self.config_seq() =~= old(self).config_seq().update(i as int, c));
        }
    }

    /// Replaces the runtime record at `i`, leaving the configuration
    /// table as it is.
    fn set_runtime(&mut self, i: usize, r: ProcessRuntime)
        requires
            i < old(self).runtime_seq().len(),
        ensures
            final(self).runtime_seq() == old(self).runtime_seq().update(i as int, r),
            final(self).config_seq() == old(self).config_seq(),
    {
        self.runtimes.remove(i);
        self.runtimes.insert(i, r);
        proof {
            assert(self.runtime_seq() =~= old(self).runtime_seq().update(i as int, r));
        }
    }
}

/// A create stored `c` under a fresh id: both tables grew by one entry.
pub open spec fn spec_inserted(pre: CoreManager, post: CoreManager, c: ProcessConfig) -> bool {
    &&& !pre.has_id(c.id@)
    &&& post.config_seq() == pre.config_seq().push(c)
    &&& post.runtime_seq() == pre.runtime_seq().push(ProcessRuntime::spec_fresh())
}

/// A create stored `c` under an id already present: that entry was
/// replaced and its runtime record reset.
pub open spec fn spec_replaced(pre: CoreManager, post: CoreManager, c: ProcessConfig) -> bool {
    &&& pre.has_id(c.id@)
    &&& post.config_seq() == pre.config_seq().update(pre.idx_of(c.id@), c)
    &&& post.runtime_seq() == pre.runtime_seq().update(
        pre.idx_of(c.id@),
        ProcessRuntime::spec_fresh(),
    )
}

pub open spec fn spec_created(pre: CoreManager, post: CoreManager, c: ProcessConfig) -> bool {
    if pre.has_id(c.id@) {
        spec_replaced(pre, post, c)
    } else {
        spec_inserted(pre, post, c)
    }
}

/// The stored configuration `c` realises create request `q`: explicit
/// fields are taken over, absent optional fields get their defaults.
pub open spec fn spec_from_create_request(c: ProcessConfig, q: CreateProcessRequest) -> bool {
    &&& c.name == q.name
    &&& c.bin_path == q.bin_path
    &&& (if q.args is Some {
        c.args@ == (q.args->0)@
    } else {
        c.args@ == Seq::<String>::empty()
    })
    &&& (if q.log_file is Some {
        c.log_file == q.log_file->0
    } else {
        c.log_file@ == spec_default_log_name(c.id@)
    })
    &&& c.working_dir == q.working_dir
    &&& spec_env_opt(c.env_vars) == spec_env_opt(q.env_vars)
    &&& c.auto_restart == (if q.auto_restart is Some { q.auto_restart->0 } else { false })
    &&& c.run_as_admin == (if q.run_as_admin is Some { q.run_as_admin->0 } else { false })
    &&& c.created_at == c.updated_at
}

/// The default log file name for a given id.
pub open spec fn spec_default_log_name(id: Seq<char>) -> Seq<char> {
    "process_"@ + id + ".log"@
}

/// Update `request` was applied to the entry carrying `id` at time `ts`.
pub open spec fn spec_update_applied(
    pre: CoreManager,
    post: CoreManager,
    id: Seq<char>,
    request: UpdateProcessRequest,
    ts: u64,
) -> bool {
    &&& pre.has_id(id)
    &&& post.config_seq() == pre.config_seq().update(
        pre.idx_of(id),
        spec_patched(pre.config_of(id), request, ts),
    )
    &&& post.runtime_seq() == pre.runtime_seq()
}

/// The entry carrying `id` was removed, both tables alike.
pub open spec fn spec_deleted(pre: CoreManager, post: CoreManager, id: Seq<char>) -> bool {
    &&& pre.has_id(id)
    &&& post.config_seq() == pre.config_seq().remove(pre.idx_of(id))
    &&& post.runtime_seq() == pre.runtime_seq().remove(pre.idx_of(id))
}

/// A successful spawn with pid `pid` was recorded at some time `ts` for
/// the entry carrying `id`.
pub open spec fn spec_started_at(
    pre: CoreManager,
    post: CoreManager,
    id: Seq<char>,
    pid: u32,
    ts: u64,
) -> bool {
    &&& pre.has_id(id)
    &&& post.config_seq() == pre.config_seq()
    &&& post.runtime_seq() == pre.runtime_seq().update(
        pre.idx_of(id),
        (ProcessRuntime {
            is_running: true,
            running_pid: pid as i64,
            started_at: Some(ts),
            restart_count: pre.runtime_of(id).restart_count,
            last_exit_code: pre.runtime_of(id).last_exit_code,
        }),
    )
}

pub open spec fn spec_started(pre: CoreManager, post: CoreManager, id: Seq<char>, pid: u32) -> bool {
    exists|ts: u64| spec_started_at(pre, post, id, pid, ts)
}

/// A stop outcome was recorded for the entry carrying `id`: the running
/// flag, pid and start time are cleared whatever happened; the exit code
/// records whether termination succeeded.
pub open spec fn spec_stop_recorded(
    pre: CoreManager,
    post: CoreManager,
    id: Seq<char>,
    clean: bool,
) -> bool {
    &&& pre.has_id(id)
    &&& post.config_seq() == pre.config_seq()
    &&& post.runtime_seq() == pre.runtime_seq().update(
        pre.idx_of(id),
        (ProcessRuntime {
            is_running: false,
            running_pid: INVALID_PID as i64,
            started_at: None,
            restart_count: pre.runtime_of(id).restart_count,
            last_exit_code: if clean { 0i32 } else { -1i32 },
        }),
    )
}

/// The log content handed back: the listed lines joined with newlines.
pub open spec fn spec_join_lines(ls: Seq<Seq<char>>) -> Seq<char> {
    crate::strutil::spec_join_sep(ls, seq!['\n'])
}

/// How many runtime records have their running flag set.
pub open spec fn spec_running_count(rts: Seq<ProcessRuntime>) -> nat
    decreases rts.len(),
{
    if rts.len() == 0 {
        0
    } else {
        spec_running_count(rts.drop_last()) + (if rts.last().is_running {
            1nat
        } else {
            0nat
        })
    }
}

/// The default log file name, `process_<id>.log`.
pub fn default_log_name(id: &str) -> (r: String)
    ensures
        r@ == spec_default_log_name(id@),
{
    let mut r = String::from_str("process_");
    r.append(id);
    r.append(".log");
    proof {
        assert(r@ =~= spec_default_log_name(id@));
    }
    r
}

impl CoreManager {
    /// Creates a process entry from a request whose binary check and
    /// freshly minted id are already in hand. With `bin_exists` the
    /// entry is always stored: under a fresh id both tables grow, under
    /// an id already present the old entry is replaced and its runtime
    /// record reset.
    pub fn create_process_at(
        &mut self,
        request: CreateProcessRequest,
        id: String,
        timestamp: u64,
        bin_exists: bool,
    ) -> (r: Result<ProcessConfig, ProcessError>)
        requires
            old(self).wf(),
        ensures
            final(self).wf(),
            !bin_exists ==> r == Err::<ProcessConfig, ProcessError>(ProcessError::ValidationError)
                && *final(self) == *old(self),
            bin_exists ==> r is Ok,
            r matches Ok(c) ==> ({
                &&& final(self).has_id(id@)
                &&& spec_created(*old(self), *final(self), final(self).config_of(id@))
                &&& spec_from_create_request(final(self).config_of(id@), request)
                &&& final(self).config_of(id@).id == id
                &&& final(self).config_of(id@).created_at == timestamp
                &&& final(self).config_of(id@).updated_at == timestamp
                &&& final(self).runtime_of(id@) == ProcessRuntime::spec_fresh()
                &&& config_eq(c, final(self).config_of(id@))
            }),
    {
        if !bin_exists {
            return Err(ProcessError::ValidationError);
        }
        let found = self.find_index(id.as_str());
        let log_file = match request.log_file {
            Some(l) => l,
            None => default_log_name(id.as_str()),
        };
        let args = match request.args {
            Some(a) => a,
            None => Vec::new(),
        };
        let c = ProcessConfig {
            id,
            name: request.name,
            bin_path: request.bin_path,
            args,
            log_file,
            working_dir: request.working_dir,
            env_vars: request.env_vars,
            auto_restart: match request.auto_restart {
                Some(b) => b,
                None => false,
            },
            run_as_admin: match request.run_as_admin {
                Some(b) => b,
                None => false,
            },
            created_at: timestamp,
            updated_at: timestamp,
        };
        let ret = c.duplicate();
        match found {
            None => {
                let ghost pre = *self;
                self.configs.push(c);
                self.runtimes.push(ProcessRuntime::fresh());
                proof {
                    let n = pre.config_seq().len() as int;
                    assert forall|a: int, b: int|
                        0 <= a < b < self.config_seq().len() implies self.config_seq()[a].id@
                        != self.config_seq()[b].id@ by {
                        if b < n {
                            assert(pre.config_seq()[a].id@ != pre.config_seq()[b].id@);
                        } else {
                            assert(!pre.has_id(self.config_seq()[b].id@));
                        }
                    }
                    self.lemma_idx(self.config_seq()[n].id@, n);
                }
                Ok(ret)
            },
            Some(i) => {
                let ghost pre = *self;
                self.set_config(i, c);
                self.set_runtime(i, ProcessRuntime::fresh());
                proof {
                    assert forall|a: int, b: int|
                        0 <= a < b < self.config_seq().len() implies self.config_seq()[a].id@
                        != self.config_seq()[b].id@ by {
                        assert(pre.config_seq()[a].id@ != pre.config_seq()[b].id@);
                    }
                    self.lemma_idx(self.config_seq()[i as int].id@, i as int);
                }
                Ok(ret)
            },
        }
    }

    /// Validates that the requested binary exists, mints a fresh id,
    /// stamps the current time, and stores the new entry. Fails with
    /// `ValidationError` when the binary is missing; whether it is
    /// missing depends on the disk, so which branch is taken is not
    /// promised, but everything else about each branch is.
    pub fn create_process(&mut self, request: CreateProcessRequest) -> (r: Result<
        ProcessConfig,
        ProcessError,
    >)
        requires
            old(self).wf(),
        ensures
            final(self).wf(),
            r matches Err(e) ==> *final(self) == *old(self) && e is ValidationError,
            r matches Ok(c) ==> ({
                &&& c.id@.len() == 36
                &&& final(self).has_id(c.id@)
                &&& spec_created(*old(self), *final(self), final(self).config_of(c.id@))
                &&& spec_from_create_request(final(self).config_of(c.id@), request)
                &&& final(self).runtime_of(c.id@) == ProcessRuntime::spec_fresh()
                &&& config_eq(c, final(self).config_of(c.id@))
            }),
    {
        let id = sys::mint_id();
        let timestamp = sys::current_unix_seconds();
        let bin_exists = sys::path_exists(request.bin_path.as_str());
        self.create_process_at(request, id, timestamp, bin_exists)
    }

    /// Applies a partial update whose binary check and timestamp are
    /// already in hand. Exactly the fields present in the request
    /// change; `updated_at` becomes `timestamp`; everything else is kept.
    pub fn update_process_checked(
        &mut self,
        id: &str,
        request: UpdateProcessRequest,
        bin_ok: bool,
        timestamp: u64,
    ) -> (r: Result<ProcessConfig, ProcessError>)
        requires
            old(self).wf(),
        ensures
            final(self).wf(),
            !old(self).has_id(id@) ==> r == Err::<ProcessConfig, ProcessError>(
                ProcessError::NotFound,
            ) && *final(self) == *old(self),
            old(self).has_id(id@) && request.bin_path is Some && !bin_ok ==> r == Err::<
                ProcessConfig,
                ProcessError,
            >(ProcessError::ValidationError) && *final(self) == *old(self),
            old(self).has_id(id@) && (request.bin_path is None || bin_ok) ==> ({
                &&& spec_update_applied(*old(self), *final(self), id@, request, timestamp)
                &&& r matches Ok(c) && config_eq(
                    c,
                    spec_patched(old(self).config_of(id@), request, timestamp),
                )
            }),
    {
        let i = match self.find_index(id) {
            Some(i) => i,
            None => {
                return Err(ProcessError::NotFound);
            },
        };
        if request.bin_path.is_some() && !bin_ok {
            return Err(ProcessError::ValidationError);
        }
        let ghost pre = *self;
        let old_c = self.configs.remove(i);
        let new_c = ProcessConfig {
            id: old_c.id,
            name: match request.name {
                Some(n) => n,
                None => old_c.name,
            },
            bin_path: match request.bin_path {
                Some(b) => b,
                None => old_c.bin_path,
            },
            args: match request.args {
                Some(a) => a,
                None => old_c.args,
            },
            log_file: match request.log_file {
                Some(l) => l,
                None => old_c.log_file,
            },
            working_dir: match request.working_dir {
                Some(w) => Some(w),
                None => old_c.working_dir,
            },
            env_vars: match request.env_vars {
                Some(e) => Some(e),
                None => old_c.env_vars,
            },
            auto_restart: match request.auto_restart {
                Some(b) => b,
                None => old_c.auto_restart,
            },
            run_as_admin: match request.run_as_admin {
                Some(b) => b,
                None => old_c.run_as_admin,
            },
            created_at: old_c.created_at,
            updated_at: timestamp,
        };
        let ret = new_c.duplicate();
        self.configs.insert(i, new_c);
        proof {
            assert(self.config_seq() =~= pre.config_seq().update(
                i as int,
                spec_patched(pre.config_of(id@), request, timestamp),
            ));
            assert forall|a: int, b: int|
                0 <= a < b < self.config_seq().len() implies self.config_seq()[a].id@
                != self.config_seq()[b].id@ by {
                assert(pre.config_seq()[a].id@ != pre.config_seq()[b].id@);
            }
        }
        Ok(ret)
    }

    /// Fails with `NotFound` for an unknown id; re-validates the binary
    /// when `bin_path` is patched; otherwise applies exactly the fields
    /// present in the request and refreshes `updated_at`.
    pub fn update_process(&mut self, id: &str, request: UpdateProcessRequest) -> (r: Result<
        ProcessConfig,
        ProcessError,
    >)
        requires
            old(self).wf(),
        ensures
            final(self).wf(),
            !old(self).has_id(id@) ==> r == Err::<ProcessConfig, ProcessError>(
                ProcessError::NotFound,
            ) && *final(self) == *old(self),
            r matches Err(e) ==> ({
                &&& *final(self) == *old(self)
                &&& (e is NotFound || e is ValidationError)
                &&& (e is NotFound ==> !old(self).has_id(id@))
                &&& (e is ValidationError ==> old(self).has_id(id@) && request.bin_path is Some)
            }),
            r matches Ok(c) ==> (exists|ts: u64|
                {
                    &&& #[trigger] spec_update_applied(*old(self), *final(self), id@, request, ts)
                    &&& config_eq(c, spec_patched(old(self).config_of(id@), request, ts))
                }),
    {
        let bin_ok = match &request.bin_path {
            Some(b) => sys::path_exists(b.as_str()),
            None => true,
        };
        let timestamp = sys::current_unix_seconds();
        self.update_process_checked(id, request, bin_ok, timestamp)
    }

    /// Removes both the configuration and the runtime record of `id`;
    /// afterwards the id is unknown. Fails with `NotFound` for an
    /// unknown id. The embedding program stops the process first.
    pub fn delete_process(&mut self, id: &str) -> (r: Result<(), ProcessError>)
        requires
            old(self).wf(),
        ensures
            final(self).wf(),
            (r is Ok) <==> old(self).has_id(id@),
            r is Err ==> r == Err::<(), ProcessError>(ProcessError::NotFound) && *final(self)
                == *old(self),
            r is Ok ==> spec_deleted(*old(self), *final(self), id@) && !final(self).has_id(id@),
    {
        let i = match self.find_index(id) {
            Some(i) => i,
            None => {
                return Err(ProcessError::NotFound);
            },
        };
        let ghost pre = *self;
        self.configs.remove(i);
        self.runtimes.remove(i);
        proof {
            assert(self.config_seq() =~= pre.config_seq().remove(i as int));
            assert(self.runtime_seq() =~= pre.runtime_seq().remove(i as int));
            assert forall|a: int, b: int|
                0 <= a < b < self.config_seq().len() implies self.config_seq()[a].id@
                != self.config_seq()[b].id@ by {
                let a0: int = if a < i { a } else { a + 1 };
                let b0: int = if b < i { b } else { b + 1 };
                assert(pre.config_seq()[a0].id@ != pre.config_seq()[b0].id@);
            }
            assert forall|j: int|
                0 <= j < self.config_seq().len() implies self.config_seq()[j].id@ != id@ by {
                let j0: int = if j < i { j } else { j + 1 };
                assert(self.config_seq()[j] == pre.config_seq()[j0]);
                if j0 != i {
                    pre.lemma_idx(id@, i as int);
                    if pre.config_seq()[j0].id@ == id@ {
                        pre.lemma_idx(id@, j0);
                    }
                }
            }
        }
        Ok(())
    }

    /// The joined configuration + runtime snapshot at position `i`.
    fn status_at(&self, i: usize) -> (st: ProcessStatus)
        requires
            self.wf(),
            i < self.config_seq().len(),
        ensures
            status_matches(st, self.config_seq()[i as int], self.runtime_seq()[i as int]),
    {
        let c = &self.configs[i];
        let rt = &self.runtimes[i];
        let pid: Option<u32> = if rt.running_pid > 0 {
            Some(rt.running_pid as u32)
        } else {
            None
        };
        let last_exit_code: Option<i32> = if rt.last_exit_code != 0 {
            Some(rt.last_exit_code)
        } else {
            None
        };
        ProcessStatus {
            id: c.id.clone(),
            name: c.name.clone(),
            is_running: rt.is_running,
            pid,
            started_at: rt.started_at,
            restart_count: rt.restart_count,
            last_exit_code,
            config: c.duplicate(),
        }
    }

    /// Read-only snapshot of one process. Fails with `NotFound` exactly
    /// when the id is unknown.
    pub fn get_process(&self, id: &str) -> (r: Result<ProcessStatus, ProcessError>)
        requires
            self.wf(),
        ensures
            (r is Err) <==> !self.has_id(id@),
            r matches Err(e) ==> e is NotFound,
            r matches Ok(st) ==> status_matches(st, self.config_of(id@), self.runtime_of(id@)),
    {
        match self.find_index(id) {
            Some(i) => Ok(self.status_at(i)),
            None => Err(ProcessError::NotFound),
        }
    }

    /// Read-only snapshot of every process, in table order.
    pub fn list_processes(&self) -> (r: Result<Vec<ProcessStatus>, ProcessError>)
        requires
            self.wf(),
        ensures
            r matches Ok(v) && v@.len() == self.config_seq().len() && (forall|i: int|
                0 <= i < v@.len() ==> status_matches(
                    #[trigger] v@[i],
                    self.config_seq()[i],
                    self.runtime_seq()[i],
                )),
    {
        let mut v: Vec<ProcessStatus> = Vec::new();
        let mut k: usize = 0;
        while k < self.configs.len()
            invariant
                self.wf(),
                k <= self.config_seq().len(),
                v@.len() == k,
                forall|i: int|
                    0 <= i < k ==> status_matches(
                        #[trigger] v@[i],
                        self.config_seq()[i],
                        self.runtime_seq()[i],
                    ),
            decreases self.configs.len() - k,
        {
            let st = self.status_at(k);
            v.push(st);
            k = k + 1;
        }
        Ok(v)
    }

    /// The ids of every known process, in table order.
    pub fn process_ids(&self) -> (r: Vec<String>)
        requires
            self.wf(),
        ensures
            r@.len() == self.config_seq().len(),
            forall|i: int| 0 <= i < r@.len() ==> #[trigger] r@[i] == self.config_seq()[i].id,
    {
        let mut r: Vec<String> = Vec::new();
        let mut k: usize = 0;
        while k < self.configs.len()
            invariant
                self.wf(),
                k <= self.config_seq().len(),
                r@.len() == k,
                forall|i: int| 0 <= i < k ==> #[trigger] r@[i] == self.config_seq()[i].id,
            decreases self.configs.len() - k,
        {
            r.push(self.configs[k].id.clone());
            k = k + 1;
        }
        r
    }

    /// Decides a start whose binary check is already in hand: `NotFound`
    /// for an unknown id, `AlreadyRunning` when the running flag is set,
    /// `ValidationError` when the binary is missing, and otherwise the
    /// spawn plan, taken field-exact from the stored configuration.
    pub fn prepare_start_checked(&self, id: &str, bin_exists: bool) -> (r: Result<
        StartPlan,
        ProcessError,
    >)
        requires
            self.wf(),
        ensures
            !self.has_id(id@) ==> r == Err::<StartPlan, ProcessError>(ProcessError::NotFound),
            self.has_id(id@) && self.runtime_of(id@).is_running ==> r == Err::<
                StartPlan,
                ProcessError,
            >(ProcessError::AlreadyRunning),
            self.has_id(id@) && !self.runtime_of(id@).is_running && !bin_exists ==> r == Err::<
                StartPlan,
                ProcessError,
            >(ProcessError::ValidationError),
            self.has_id(id@) && !self.runtime_of(id@).is_running && bin_exists ==> r is Ok,
            r matches Ok(p) ==> ({
                &&& self.has_id(id@)
                &&& !self.runtime_of(id@).is_running
                &&& p.bin_path == self.config_of(id@).bin_path
                &&& p.args@ == self.config_of(id@).args@
                &&& p.log_file == self.config_of(id@).log_file
                &&& p.run_as_admin == self.config_of(id@).run_as_admin
            }),
    {
        let i = match self.find_index(id) {
            Some(i) => i,
            None => {
                return Err(ProcessError::NotFound);
            },
        };
        if self.runtimes[i].is_running {
            return Err(ProcessError::AlreadyRunning);
        }
        if !bin_exists {
            return Err(ProcessError::ValidationError);
        }
        let c = &self.configs[i];
        Ok(StartPlan {
            bin_path: c.bin_path.clone(),
            args: clone_string_vec(&c.args),
            log_file: c.log_file.clone(),
            run_as_admin: c.run_as_admin,
        })
    }

    /// Decides a start: as `prepare_start_checked`, with the binary's
    /// existence asked of the disk. A start refused with
    /// `AlreadyRunning` changes nothing: the manager is read, not
    /// written, so the recorded pid stays as it was.
    pub fn prepare_start(&self, id: &str) -> (r: Result<StartPlan, ProcessError>)
        requires
            self.wf(),
        ensures
            !self.has_id(id@) ==> r == Err::<StartPlan, ProcessError>(ProcessError::NotFound),
            self.has_id(id@) && self.runtime_of(id@).is_running ==> r == Err::<
                StartPlan,
                ProcessError,
            >(ProcessError::AlreadyRunning),
            r matches Err(e) ==> ({
                &&& (e is NotFound || e is AlreadyRunning || e is ValidationError)
                &&& (e is NotFound ==> !self.has_id(id@))
                &&& (e is AlreadyRunning ==> self.has_id(id@) && self.runtime_of(id@).is_running)
                &&& (e is ValidationError ==> self.has_id(id@) && !self.runtime_of(
                    id@,
                ).is_running)
            }),
            r matches Ok(p) ==> ({
                &&& self.has_id(id@)
                &&& !self.runtime_of(id@).is_running
                &&& p.bin_path == self.config_of(id@).bin_path
                &&& p.args@ == self.config_of(id@).args@
                &&& p.log_file == self.config_of(id@).log_file
                &&& p.run_as_admin == self.config_of(id@).run_as_admin
            }),
    {
        let bin_exists = match self.find_index(id) {
            Some(i) => sys::path_exists(self.configs[i].bin_path.as_str()),
            None => false,
        };
        self.prepare_start_checked(id, bin_exists)
    }

    /// Records a successful spawn: sets the running flag, stores the
    /// pid, and stamps the start time. Fails with `NotFound` for an
    /// unknown id and changes nothing then.
    pub fn commit_start(&mut self, id: &str, pid: u32) -> (r: Result<(), ProcessError>)
        requires
            old(self).wf(),
        ensures
            final(self).wf(),
            (r is Ok) <==> old(self).has_id(id@),
            r is Err ==> r == Err::<(), ProcessError>(ProcessError::NotFound) && *final(self)
                == *old(self),
            r is Ok ==> spec_started(*old(self), *final(self), id@, pid),
    {
        let i = match self.find_index(id) {
            Some(i) => i,
            None => {
                return Err(ProcessError::NotFound);
            },
        };
        let ts = sys::current_unix_seconds();
        let prev = self.runtimes[i];
        let ghost pre = *self;
        self.set_runtime(
            i,
            ProcessRuntime {
                is_running: true,
                running_pid: pid as i64,
                started_at: Some(ts),
                restart_count: prev.restart_count,
                last_exit_code: prev.last_exit_code,
            },
        );
        proof {
            assert(spec_started_at(pre, *self, id@, pid, ts));
        }
        Ok(())
    }

    /// Decides a stop: `NotFound` for an unknown id; with no recorded
    /// pid the stop succeeds trivially and every runtime field keeps its
    /// value; with a recorded pid the caller must terminate it and
    /// report back through `finish_stop`. The manager itself is left
    /// exactly as it was.
    pub fn stop_process(&mut self, id: &str) -> (r: Result<StopAction, ProcessError>)
        requires
            old(self).wf(),
        ensures
            *final(self) == *old(self),
            final(self).wf(),
            (r is Err) <==> !old(self).has_id(id@),
            r matches Err(e) ==> e is NotFound,
            old(self).has_id(id@) && old(self).runtime_of(id@).running_pid <= 0 ==> r == Ok::<
                StopAction,
                ProcessError,
            >(StopAction::NotRunning),
            old(self).has_id(id@) && old(self).runtime_of(id@).running_pid > 0 ==> r == Ok::<
                StopAction,
                ProcessError,
            >(StopAction::Terminate(old(self).runtime_of(id@).running_pid as u32)),
    {
        let i = match self.find_index(id) {
            Some(i) => i,
            None => {
                return Err(ProcessError::NotFound);
            },
        };
        let p = self.runtimes[i].running_pid;
        if p <= 0 {
            Ok(StopAction::NotRunning)
        } else {
            Ok(StopAction::Terminate(p as u32))
        }
    }

    /// Records a termination outcome: clears the running flag, the pid
    /// and the start time whatever happened; a clean kill leaves exit
    /// code 0, a failed one the failure sentinel, and the kill error is
    /// handed back to the caller.
    pub fn finish_stop(&mut self, id: &str, kill_result: Result<(), ProcessError>) -> (r: Result<
        (),
        ProcessError,
    >)
        requires
            old(self).wf(),
        ensures
            final(self).wf(),
            !old(self).has_id(id@) ==> r == Err::<(), ProcessError>(ProcessError::NotFound)
                && *final(self) == *old(self),
            old(self).has_id(id@) ==> spec_stop_recorded(
                *old(self),
                *final(self),
                id@,
                kill_result is Ok,
            ) && r == kill_result,
    {
        let i = match self.find_index(id) {
            Some(i) => i,
            None => {
                return Err(ProcessError::NotFound);
            },
        };
        let prev = self.runtimes[i];
        let clean = kill_result.is_ok();
        self.set_runtime(
            i,
            ProcessRuntime {
                is_running: false,
                running_pid: INVALID_PID,
                started_at: None,
                restart_count: prev.restart_count,
                last_exit_code: if clean {
                    0i32
                } else {
                    -1i32
                },
            },
        );
        kill_result
    }

    /// Recent log output: the last `min(max_lines, total)` lines of the
    /// given log file contents, joined with newlines, with total and
    /// fetched counts. A missing log file (`None`) yields an empty
    /// result with zero counts, not an error. Fails with `NotFound`
    /// exactly when the id is unknown.
    pub fn get_process_logs(
        &self,
        id: &str,
        file_lines: Option<Vec<String>>,
        max_lines: Option<usize>,
    ) -> (r: Result<LogResponse, ProcessError>)
        requires
            self.wf(),
        ensures
            (r is Err) <==> !self.has_id(id@),
            r matches Err(e) ==> e is NotFound,
            r matches Ok(lr) ==> ({
                &&& lr.id@ == id@
                &&& lr.name == self.config_of(id@).name
                &&& (match file_lines {
                    None => lr.total_lines == 0 && lr.fetched_lines == 0 && lr.log_content@
                        == Seq::<char>::empty(),
                    Some(lines) => ({
                        let total: int = lines@.len() as int;
                        let want: int = (match max_lines {
                            Some(m) => m as int,
                            None => DEFAULT_LOG_LINES as int,
                        });
                        let fetched: int = if want <= total {
                            want
                        } else {
                            total
                        };
                        &&& lr.total_lines == total
                        &&& lr.fetched_lines == fetched
                        &&& lr.log_content@ == spec_join_lines(
                            lines.deep_view().subrange(total - fetched, total),
                        )
                    }),
                })
            }),
    {
        let i = match self.find_index(id) {
            Some(i) => i,
            None => {
                return Err(ProcessError::NotFound);
            },
        };
        let name = self.configs[i].name.clone();
        match file_lines {
            None => Ok(LogResponse {
                id: String::from_str(id),
                name,
                log_content: String::new(),
                total_lines: 0,
                fetched_lines: 0,
            }),
            Some(lines) => {
                let total = lines.len();
                let want = match max_lines {
                    Some(m) => m,
                    None => DEFAULT_LOG_LINES,
                };
                let fetched = if want <= total {
                    want
                } else {
                    total
                };
                let start = total - fetched;
                let mut content = String::new();
                let mut k: usize = start;
                while k < total
                    invariant
                        start <= k <= total,
                        total == lines@.len(),
                        content@ == spec_join_lines(
                            lines.deep_view().subrange(start as int, k as int),
                        ),
                    decreases total - k,
                {
                    if k > start {
                        crate::strutil::push_char(&mut content, '\n');
                    }
                    content.append(lines[k].as_str());
                    proof {
                        let dv = lines.deep_view();
                        assert(dv.subrange(start as int, k as int + 1).drop_last() =~= dv.subrange(
                            start as int,
                            k as int,
                        ));
                        assert(dv.subrange(start as int, k as int + 1).last() == dv[k as int]);
                        assert(content@ =~= spec_join_lines(
                            dv.subrange(start as int, k as int + 1),
                        ));
                    }
                    k = k + 1;
                }
                Ok(LogResponse {
                    id: String::from_str(id),
                    name,
                    log_content: content,
                    total_lines: total,
                    fetched_lines: fetched,
                })
            },
        }
    }

    /// Aggregate status: how many processes are known, and how many of
    /// them are currently running.
    pub fn get_openlist_status(&self) -> (r: (usize, usize))
        requires
            self.wf(),
        ensures
            r.0 == self.config_seq().len(),
            r.1 == spec_running_count(self.runtime_seq()),
    {
        let total = self.configs.len();
        let mut running: usize = 0;
        let mut k: usize = 0;
        while k < self.runtimes.len()
            invariant
                self.wf(),
                k <= self.runtime_seq().len(),
                running <= k,
                running == spec_running_count(self.runtime_seq().subrange(0, k as int)),
            decreases self.runtimes.len() - k,
        {
            proof {
                assert(self.runtime_seq().subrange(0, k as int + 1).drop_last() =~= self
                    .runtime_seq()
                    .subrange(0, k as int));
                assert(self.runtime_seq().subrange(0, k as int + 1).last() == self.runtime_seq()[k
                    as int]);
            }
            if self.runtimes[k].is_running {
                running = running + 1;
            }
            k = k + 1;
        }
        proof {
            assert(self.runtime_seq().subrange(0, self.runtime_seq().len() as int) =~= self
                .runtime_seq());
        }
        (total, running)
    }
}

impl CoreManager {
    /// The persisted document: the configuration table rendered in its
    /// canonical form, character-exact. The embedding program writes it
    /// to disk after every mutating operation.
    pub fn save_config(&self) -> (r: String)
        requires
            self.wf(),
        ensures
            r@ == crate::json::spec_configs_doc(self.config_seq()),
    {
        crate::json::render_configs(&self.configs)
    }

    /// Stores one loaded configuration with a fresh runtime record,
    /// replacing any entry already carrying the same id.
    fn insert_loaded(&mut self, c: ProcessConfig)
        requires
            old(self).wf(),
        ensures
            final(self).wf(),
            spec_created(*old(self), *final(self), c),
    {
        let found = self.find_index(c.id.as_str());
        match found {
            None => {
                let ghost pre = *self;
                let ghost cg = c;
                self.configs.push(c);
                self.runtimes.push(ProcessRuntime::fresh());
                proof {
                    let n = pre.config_seq().len() as int;
                    assert forall|a: int, b: int|
                        0 <= a < b < self.config_seq().len() implies self.config_seq()[a].id@
                        != self.config_seq()[b].id@ by {
                        if b < n {
                            assert(pre.config_seq()[a].id@ != pre.config_seq()[b].id@);
                        } else {
                            assert(!pre.has_id(self.config_seq()[b].id@));
                        }
                    }
                }
            },
            Some(i) => {
                let ghost pre = *self;
                self.set_config(i, c);
                self.set_runtime(i, ProcessRuntime::fresh());
                proof {
                    assert forall|a: int, b: int|
                        0 <= a < b < self.config_seq().len() implies self.config_seq()[a].id@
                        != self.config_seq()[b].id@ by {
                        assert(pre.config_seq()[a].id@ != pre.config_seq()[b].id@);
                    }
                }
            },
        }
    }

    /// Loads a persisted document into the table. Fails with
    /// `PersistenceError`, leaving the table untouched, when the text
    /// is not the canonical rendering of a configuration sequence; on
    /// success the text is the canonical rendering of some sequence
    /// `cs`, and exactly the entries of `cs` were stored, front to
    /// back, each with a fresh runtime record, an entry with an id
    /// already present replacing the old one.
    pub fn load_config(&mut self, text: &str) -> (r: Result<usize, ProcessError>)
        requires
            old(self).wf(),
        ensures
            final(self).wf(),
            r matches Err(e) ==> e is PersistenceError && *final(self) == *old(self),
            text@ == crate::json::spec_configs_doc(Seq::<ProcessConfig>::empty()) ==> r is Ok,
            r matches Ok(count) ==> (exists|cs: Seq<ProcessConfig>|
                {
                    &&& text@ == crate::json::spec_configs_doc(cs)
                    &&& count == cs.len()
                    &&& #[trigger] spec_load_fold(*old(self), *final(self), cs)
                }),
    {
        let mut cs = match crate::json::parse_configs(text) {
            Some(cs) => cs,
            None => {
                return Err(ProcessError::PersistenceError);
            },
        };
        let count = cs.len();
        let ghost all = cs@;
        let mut done: usize = 0;
        while done < count
            invariant
                self.wf(),
                done <= count,
                count == all.len(),
                cs@ == all.subrange(done as int, count as int),
                spec_load_fold(*old(self), *self, all.subrange(0, done as int)),
            decreases count - done,
        {
            let ghost mid = *self;
            let c = cs.remove(0);
            proof {
                assert(c == all[done as int]);
                assert(cs@ =~= all.subrange(done as int + 1, count as int));
            }
            self.insert_loaded(c);
            proof {
                lemma_load_fold_extend(*old(self), mid, *self, all.subrange(0, done as int), c);
                assert(all.subrange(0, done as int).push(c) =~= all.subrange(0, done as int + 1));
            }
            done = done + 1;
        }
        proof {
            assert(all.subrange(0, count as int) =~= all);
        }
        Ok(count)
    }
}

/// The entries of `cs` were applied to the table front to back, each
/// stored by the loading step (`spec_created`: inserted under a fresh
/// id, or replacing the entry already carrying it, with a fresh
/// runtime record either way).
pub open spec fn spec_load_fold(pre: CoreManager, post: CoreManager, cs: Seq<ProcessConfig>) -> bool
    decreases cs.len(),
{
    if cs.len() == 0 {
        post == pre
    } else {
        exists|mid: CoreManager|
            #[trigger] spec_created(pre, mid, cs[0]) && spec_load_fold(mid, post, cs.drop_first())
    }
}

/// One more stored entry extends the fold.
proof fn lemma_load_fold_extend(
    pre: CoreManager,
    mid: CoreManager,
    post: CoreManager,
    done: Seq<ProcessConfig>,
    c: ProcessConfig,
)
    requires
        spec_load_fold(pre, mid, done),
        spec_created(mid, post, c),
    ensures
        spec_load_fold(pre, post, done.push(c)),
    decreases done.len(),
{
    if done.len() == 0 {
        assert(mid == pre);
        assert(done.push(c)[0] == c);
        assert(done.push(c).drop_first() =~= Seq::<ProcessConfig>::empty());
        assert(spec_created(pre, post, c) && spec_load_fold(post, post, done.push(c).drop_first()));
    } else {
        let m1 = choose|m1: CoreManager|
            #[trigger] spec_created(pre, m1, done[0]) && spec_load_fold(m1, mid, done.drop_first());
        lemma_load_fold_extend(m1, mid, post, done.drop_first(), c);
        assert(done.push(c)[0] == done[0]);
        assert(done.push(c).drop_first() =~= done.drop_first().push(c));
        assert(spec_created(pre, m1, done.push(c)[0]) && spec_load_fold(
            m1,
            post,
            done.push(c).drop_first(),
        ));
    }
}

/// A load never grows the table by more than one entry per stored
/// configuration.
proof fn lemma_load_fold_len(pre: CoreManager, post: CoreManager, cs: Seq<ProcessConfig>)
    requires
        spec_load_fold(pre, post, cs),
    ensures
        post.config_seq().len() <= pre.config_seq().len() + cs.len(),
    decreases cs.len(),
{
    if cs.len() > 0 {
        let mid = choose|mid: CoreManager|
            #[trigger] spec_created(pre, mid, cs[0]) && spec_load_fold(mid, post, cs.drop_first());
        lemma_load_fold_len(mid, post, cs.drop_first());
    }
}

/// A load that grew the table by exactly one entry per stored
/// configuration met no id collision: every entry was appended, so the
/// configurations were appended in document order, each with a fresh
/// runtime record, and the prior entries stand untouched.
pub proof fn lemma_load_fold_no_collision(
    pre: CoreManager,
    post: CoreManager,
    cs: Seq<ProcessConfig>,
)
    requires
        spec_load_fold(pre, post, cs),
        post.config_seq().len() == pre.config_seq().len() + cs.len(),
    ensures
        post.config_seq() == pre.config_seq() + cs,
        post.runtime_seq().len() == pre.runtime_seq().len() + cs.len(),
        forall|i: int|
            0 <= i < pre.runtime_seq().len() ==> #[trigger] post.runtime_seq()[i]
                == pre.runtime_seq()[i],
        forall|i: int|
            pre.runtime_seq().len() <= i < post.runtime_seq().len()
                ==> #[trigger] post.runtime_seq()[i] == ProcessRuntime::spec_fresh(),
    decreases cs.len(),
{
    if cs.len() == 0 {
        assert(post == pre);
        assert(post.config_seq() =~= pre.config_seq() + cs);
    } else {
        let mid = choose|mid: CoreManager|
            #[trigger] spec_created(pre, mid, cs[0]) && spec_load_fold(mid, post, cs.drop_first());
        lemma_load_fold_len(mid, post, cs.drop_first());
        if pre.has_id(cs[0].id@) {
            assert(mid.config_seq().len() == pre.config_seq().len());
            assert(false);
        }
        assert(mid.config_seq() == pre.config_seq().push(cs[0]));
        lemma_load_fold_no_collision(mid, post, cs.drop_first());
        assert(post.config_seq() =~= pre.config_seq() + cs);
    }
}

/// Round trip of the persistence store: the document `save_config`
/// wrote from one store, loaded by `load_config` into a fresh store
/// without an id collision, fills the fresh store with exactly the
/// parsed configurations — every entry carrying a fresh, not-running
/// runtime record — and those entries render back to the very document
/// that was saved.
pub proof fn lemma_save_load_round_trip(
    saved: CoreManager,
    text: Seq<char>,
    pre: CoreManager,
    post: CoreManager,
    cs: Seq<ProcessConfig>,
)
    requires
        text == crate::json::spec_configs_doc(saved.config_seq()),
        text == crate::json::spec_configs_doc(cs),
        pre.config_seq().len() == 0,
        pre.runtime_seq().len() == 0,
        spec_load_fold(pre, post, cs),
        post.config_seq().len() == cs.len(),
    ensures
        post.config_seq() == cs,
        crate::json::spec_configs_doc(post.config_seq()) == text,
        forall|i: int|
            0 <= i < post.runtime_seq().len() ==> #[trigger] post.runtime_seq()[i]
                == ProcessRuntime::spec_fresh() && !post.runtime_seq()[i].is_running,
{
    lemma_load_fold_no_collision(pre, post, cs);
    assert(post.config_seq() =~= pre.config_seq() + cs);
    assert(pre.config_seq() + cs =~= cs);
}

/// A delete forces a stop first: in the state between the recorded stop
/// and the removal, the entry's running flag is already cleared and its
/// pid already dropped, and once the entry is removed the id is unknown,
/// so a lookup afterwards fails.
pub proof fn lemma_stop_then_delete(
    s0: CoreManager,
    s1: CoreManager,
    s2: CoreManager,
    id: Seq<char>,
    clean: bool,
)
    requires
        s0.wf(),
        s1.wf(),
        spec_stop_recorded(s0, s1, id, clean),
        spec_deleted(s1, s2, id),
    ensures
        !s1.runtime_of(id).is_running,
        s1.runtime_of(id).running_pid == INVALID_PID as i64,
        !s2.has_id(id),
{
    let i = s0.idx_of(id);
    assert(0 <= i < s0.config_seq().len() && s0.config_seq()[i].id@ == id);
    s1.lemma_idx(id, i);
    let j = s1.idx_of(id);
    assert forall|k: int| 0 <= k < s2.config_seq().len() implies s2.config_seq()[k].id@ != id by {
        let k0: int = if k < j {
            k
        } else {
            k + 1
        };
        assert(s2.config_seq()[k] == s1.config_seq()[k0]);
        if s1.config_seq()[k0].id@ == id {
            s1.lemma_idx(id, k0);
        }
    }
}

/// Once a start has been recorded for an id, that id is still known and
/// its running flag is set, so a further start attempt is refused with
/// `AlreadyRunning` by `prepare_start` — which reads the manager without
/// writing it, leaving the recorded pid unchanged. Concurrent starts are
/// serialised by the embedding program's lock, so of N attempts exactly
/// the first can record a spawn.
pub proof fn lemma_started_then_running(
    pre: CoreManager,
    post: CoreManager,
    id: Seq<char>,
    pid: u32,
)
    requires
        pre.wf(),
        spec_started(pre, post, id, pid),
    ensures
        post.has_id(id),
        post.runtime_of(id).is_running,
        post.runtime_of(id).running_pid == pid as i64,
    {
    let ts = choose|ts: u64| spec_started_at(pre, post, id, pid, ts);
    let i = pre.idx_of(id);
    assert(0 <= i < pre.config_seq().len() && pre.config_seq()[i].id@ == id);
    post.lemma_idx(id, i);
}

/// A freshly created entry is not running and exposes no pid: a
/// `get_process` right after a create shows the stored configuration
/// with `is_running` false.
pub proof fn lemma_fresh_entry_not_running(m: CoreManager, id: Seq<char>)
    requires
        m.wf(),
        m.has_id(id),
        m.runtime_of(id) == ProcessRuntime::spec_fresh(),
    ensures
        !m.runtime_of(id).is_running,
        spec_status_pid(m.runtime_of(id).running_pid) is None,
        spec_status_exit_code(m.runtime_of(id).last_exit_code) is None,
{
}

/// An update patches exactly the fields named by the request: every
/// unmentioned field of the entry keeps its prior value, `updated_at`
/// is refreshed, and every other entry is untouched.
pub proof fn lemma_update_preserves_unpatched(
    pre: CoreManager,
    post: CoreManager,
    id: Seq<char>,
    request: UpdateProcessRequest,
    ts: u64,
)
    requires
        pre.wf(),
        spec_update_applied(pre, post, id, request, ts),
    ensures
        post.has_id(id),
        request.name is None ==> post.config_of(id).name == pre.config_of(id).name,
        request.bin_path is None ==> post.config_of(id).bin_path == pre.config_of(id).bin_path,
        request.args is None ==> post.config_of(id).args == pre.config_of(id).args,
        request.log_file is None ==> post.config_of(id).log_file == pre.config_of(id).log_file,
        request.working_dir is None ==> post.config_of(id).working_dir == pre.config_of(
            id,
        ).working_dir,
        request.env_vars is None ==> post.config_of(id).env_vars == pre.config_of(id).env_vars,
        request.auto_restart is None ==> post.config_of(id).auto_restart == pre.config_of(
            id,
        ).auto_restart,
        request.run_as_admin is None ==> post.config_of(id).run_as_admin == pre.config_of(
            id,
        ).run_as_admin,
        post.config_of(id).id == pre.config_of(id).id,
        post.config_of(id).created_at == pre.config_of(id).created_at,
        post.config_of(id).updated_at == ts,
        post.runtime_of(id) == pre.runtime_of(id),
        forall|j: int|
            0 <= j < pre.config_seq().len() && j != pre.idx_of(id)
                ==> #[trigger] post.config_seq()[j] == pre.config_seq()[j],
{
    let i = pre.idx_of(id);
    assert(0 <= i < pre.config_seq().len() && pre.config_seq()[i].id@ == id);
    post.lemma_idx(id, i);
}

/// A stop on an id with no recorded pid is a trivial success: the
/// decision step returns `NotRunning` and the manager — every runtime
/// field included — is exactly as before. This is the contract of
/// `stop_process`; this lemma records the consequence for the exposed
/// snapshot.
pub proof fn lemma_stop_without_pid_keeps_snapshot(m: CoreManager, id: Seq<char>)
    requires
        m.wf(),
        m.has_id(id),
        m.runtime_of(id) == ProcessRuntime::spec_fresh(),
    ensures
        m.runtime_of(id).running_pid <= 0,
        !m.runtime_of(id).is_running,
        m.runtime_of(id).started_at is None,
        m.runtime_of(id).last_exit_code == 0,
{
}

} // verus!
