//! Spawn planning: from a stored configuration to the exact program,
//! argument vector, working directory and log banner the embedding
//! program must use, with the platform's elevation policy applied. The
//! plan is pure text; the embedding program performs the launch and
//! reports the pid back to the manager.

use vstd::prelude::*;
use crate::paths::{Platform, spec_working_dir, get_working_directory};
use crate::strutil::{spec_join_sep, spec_bool_str, join_with, bool_str, push_char, clone_string_vec};

verus! {

/// Everything the embedding program needs to launch a process: run
/// `program` with `args` in `working_dir`, with the child's output
/// redirected to the log file, after writing `banner` as one line to
/// that log.
pub struct SpawnPlan {
    pub program: String,
    pub args: Vec<String>,
    pub working_dir: String,
    pub banner: String,
}

/// The one-line log banner written before spawning.
pub open spec fn spec_banner(cmd: Seq<char>, args: Seq<Seq<char>>, admin: bool) -> Seq<char> {
    "Spawning process: "@ + cmd + " "@ + spec_join_sep(args, " "@) + " (admin: "@ + spec_bool_str(
        admin,
    ) + ")"@
}

pub fn build_banner(command: &str, args: &Vec<String>, run_as_admin: bool) -> (r: String)
    ensures
        r@ == spec_banner(command@, args.deep_view(), run_as_admin),
{
    let mut r = String::from_str("Spawning process: ");
    r.append(command);
    r.append(" ");
    let joined = join_with(args, " ");
    r.append(joined.as_str());
    r.append(" (admin: ");
    r.append(bool_str(run_as_admin));
    r.append(")");
    proof {
        assert(r@ =~= spec_banner(command@, args.deep_view(), run_as_admin));
    }
    r
}

/// An argument as it survives the elevated-shell list construction on
/// the Windows family: every single quote is doubled.
pub open spec fn spec_ps_escaped(s: Seq<char>) -> Seq<char>
    decreases s.len(),
{
    if s.len() == 0 {
        Seq::empty()
    } else {
        spec_ps_escaped(s.drop_last()) + (if s.last() == '\'' {
            seq!['\'', '\'']
        } else {
            seq![s.last()]
        })
    }
}

pub fn escape_ps_arg(s: &str) -> (r: String)
    ensures
        r@ == spec_ps_escaped(s@),
{
    let n = s.unicode_len();
    let mut r = String::new();
    let mut k: usize = 0;
    while k < n
        invariant
            k <= n,
            n == s@.len(),
            r@ == spec_ps_escaped(s@.subrange(0, k as int)),
        decreases n - k,
    {
        let c = s.get_char(k);
        if c == '\'' {
            push_char(&mut r, '\'');
            push_char(&mut r, '\'');
        } else {
            push_char(&mut r, c);
        }
        proof {
            assert(s@.subrange(0, k as int + 1).drop_last() =~= s@.subrange(0, k as int));
            assert(s@.subrange(0, k as int + 1).last() == s@[k as int]);
            assert(r@ =~= spec_ps_escaped(s@.subrange(0, k as int + 1)));
        }
        k = k + 1;
    }
    proof {
        assert(s@.subrange(0, s@.len() as int) =~= s@);
    }
    r
}

/// One argument of the elevated-shell argument list: quoted, with inner
/// quotes doubled.
pub open spec fn spec_ps_quoted(s: Seq<char>) -> Seq<char> {
    seq!['\''] + spec_ps_escaped(s) + seq!['\'']
}

/// The elevated-shell command on the Windows family: a hidden, elevated
/// instance of the target binary, its arguments passed as an
/// individually quoted list.
pub open spec fn spec_ps_command(cmd: Seq<char>, args: Seq<Seq<char>>) -> Seq<char> {
    if args.len() == 0 {
        "Start-Process -FilePath '"@ + cmd + "' -Verb RunAs -WindowStyle Hidden"@
    } else {
        "Start-Process -FilePath '"@ + cmd + "' -ArgumentList @("@ + spec_join_sep(
            args.map_values(|a: Seq<char>| spec_ps_quoted(a)),
            ", "@,
        ) + ") -Verb RunAs -WindowStyle Hidden"@
    }
}

pub fn build_ps_command(command: &str, args: &Vec<String>) -> (r: String)
    ensures
        r@ == spec_ps_command(command@, args.deep_view()),
{
    if args.len() == 0 {
        let mut r = String::from_str("Start-Process -FilePath '");
        r.append(command);
        r.append("' -Verb RunAs -WindowStyle Hidden");
        proof {
            assert(r@ =~= spec_ps_command(command@, args.deep_view()));
        }
        r
    } else {
        let mut quoted: Vec<String> = Vec::new();
        let mut k: usize = 0;
        while k < args.len()
            invariant
                k <= args.len(),
                quoted@.len() == k,
                forall|j: int|
                    0 <= j < k ==> (#[trigger] quoted@[j])@ == spec_ps_quoted(args@[j]@),
            decreases args.len() - k,
        {
            let mut q = String::from_str("'");
            let e = escape_ps_arg(args[k].as_str());
            q.append(e.as_str());
            q.append("'");
            proof {
                reveal_strlit("'");
                assert("'"@ =~= seq!['\'']);
                assert(q@ =~= spec_ps_quoted(args@[k as int]@));
            }
            quoted.push(q);
            k = k + 1;
        }
        proof {
            let dv = args.deep_view();
            let m = dv.map_values(|a: Seq<char>| spec_ps_quoted(a));
            assert forall|j: int| 0 <= j < m.len() implies quoted.deep_view()[j] == m[j] by {
                assert(quoted.deep_view()[j] == quoted@[j]@);
                assert(dv[j] == args@[j]@);
                assert(m[j] == spec_ps_quoted(dv[j]));
            }
            assert(quoted.deep_view() =~= m);
        }
        let list = join_with(&quoted, ", ");
        let mut r = String::from_str("Start-Process -FilePath '");
        r.append(command);
        r.append("' -ArgumentList @(");
        r.append(list.as_str());
        r.append(") -Verb RunAs -WindowStyle Hidden");
        proof {
            assert(r@ =~= spec_ps_command(command@, args.deep_view()));
        }
        r
    }
}

/// The elevation policy, applied: what is actually executed.
///
/// - Not elevated: the binary itself, with its own arguments.
/// - Elevated on the Windows family: an elevated shell instance that
///   launches the binary hidden.
/// - Elevated elsewhere: the privilege helper with the binary as its
///   first argument when the helper is available, and the binary
///   itself, unelevated, when it is not — a deliberate degrade, not an
///   error.
pub fn plan_spawn(
    platform: Platform,
    command: &str,
    args: &Vec<String>,
    run_as_admin: bool,
    sudo_available: bool,
) -> (r: SpawnPlan)
    ensures
        r.banner@ == spec_banner(command@, args.deep_view(), run_as_admin),
        r.working_dir@ == spec_working_dir(platform, command@),
        run_as_admin && platform == Platform::Windows ==> ({
            &&& r.program@ == "powershell"@
            &&& r.args.deep_view() =~= seq!["-Command"@, spec_ps_command(command@, args.deep_view())]
        }),
        !run_as_admin ==> r.program@ == command@ && r.args.deep_view() =~= args.deep_view(),
        run_as_admin && platform != Platform::Windows && sudo_available ==> ({
            &&& r.program@ == "sudo"@
            &&& r.args.deep_view() =~= seq![command@] + args.deep_view()
        }),
        run_as_admin && platform != Platform::Windows && !sudo_available ==> r.program@ == command@
            && r.args.deep_view() =~= args.deep_view(),
{
    let banner = build_banner(command, args, run_as_admin);
    let working_dir = get_working_directory(platform, command);
    if run_as_admin && matches!(platform, Platform::Windows) {
        let ps = build_ps_command(command, args);
        let mut a: Vec<String> = Vec::new();
        a.push(String::from_str("-Command"));
        a.push(ps);
        SpawnPlan { program: String::from_str("powershell"), args: a, working_dir, banner }
    } else if run_as_admin && sudo_available {
        let mut a: Vec<String> = Vec::new();
        a.push(String::from_str(command));
        let mut rest = clone_string_vec(args);
        a.append(&mut rest);
        SpawnPlan { program: String::from_str("sudo"), args: a, working_dir, banner }
    } else {
        SpawnPlan {
            program: String::from_str(command),
            args: clone_string_vec(args),
            working_dir,
            banner,
        }
    }
}

/// Whether a file mode lacks the owner-execute bit.
pub fn needs_exec_permission(mode: u32) -> (r: bool)
    ensures
        r == (mode & 0o100 == 0),
{
    mode & 0o100 == 0
}

/// The mode with read/write/execute added for the owner and
/// read/execute for everyone else, as set before a start.
pub fn mode_with_exec(mode: u32) -> (r: u32)
    ensures
        r == (mode | 0o755),
{
    mode | 0o755
}

/// A mode with the execute bits added always carries the owner-execute
/// bit: after `mode_with_exec`, `needs_exec_permission` is false.
pub proof fn lemma_mode_with_exec_executable(mode: u32)
    ensures
        (mode | 0o755) & 0o100 != 0,
{
    assert((mode | 0o755) & 0o100 != 0) by (bit_vector);
}

} // verus!
