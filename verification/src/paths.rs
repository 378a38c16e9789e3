//! Locations and environment policy, computed from plain values handed
//! in by the embedding program: the platform-specific configuration
//! directory, the configuration file path, the auto-start switch, and
//! the working directory a spawned process gets.

use vstd::prelude::*;
use crate::data::ProcessError;

verus! {

/// The platform families the supervisor distinguishes.
#[derive(Clone, Copy, PartialEq, Eq, Structural)]
pub enum Platform {
    Windows,
    MacOs,
    Linux,
}

/// File name of the persisted configuration document.
pub const CONFIG_FILE_NAME: &'static str = "process_configs.json";

/// The configuration directory for a platform, from the relevant
/// environment values: `%APPDATA%` (or `%USERPROFILE%` + the roaming
/// suffix) on the Windows family, the home directory on macOS, and
/// `$XDG_CONFIG_HOME` (or `~/.config`) on Linux. Fails only when every
/// relevant value is absent.
pub fn get_config_dir(
    platform: Platform,
    appdata: Option<String>,
    userprofile: Option<String>,
    home: Option<String>,
    xdg_config_home: Option<String>,
) -> (r: Result<String, ProcessError>)
    ensures
        platform == Platform::Windows ==> (match (appdata, userprofile) {
            (Some(a), _) => r matches Ok(d) && d@ == a@ + "\\OpenListService"@,
            (None, Some(u)) => r matches Ok(d) && d@ == u@
                + "\\AppData\\Roaming\\OpenListService"@,
            (None, None) => r == Err::<String, ProcessError>(ProcessError::PersistenceError),
        }),
        platform == Platform::MacOs ==> (match home {
            Some(h) => r matches Ok(d) && d@ == h@
                + "/Library/Application Support/OpenListService"@,
            None => r == Err::<String, ProcessError>(ProcessError::PersistenceError),
        }),
        platform == Platform::Linux ==> (match (xdg_config_home, home) {
            (Some(x), _) => r matches Ok(d) && d@ == x@ + "/openlist-service"@,
            (None, Some(h)) => r matches Ok(d) && d@ == h@ + "/.config/openlist-service"@,
            (None, None) => r == Err::<String, ProcessError>(ProcessError::PersistenceError),
        }),
{
    match platform {
        Platform::Windows => {
            match appdata {
                Some(a) => Ok(a.concat("\\OpenListService")),
                None => match userprofile {
                    Some(u) => {
                        let d = u.concat("\\AppData\\Roaming\\OpenListService");
                        proof {
                            assert(d@ =~= userprofile->0@ + "\\AppData\\Roaming\\OpenListService"@);
                        }
                        Ok(d)
                    },
                    None => Err(ProcessError::PersistenceError),
                },
            }
        },
        Platform::MacOs => {
            match home {
                Some(h) => Ok(h.concat("/Library/Application Support/OpenListService")),
                None => Err(ProcessError::PersistenceError),
            }
        },
        Platform::Linux => {
            match xdg_config_home {
                Some(x) => Ok(x.concat("/openlist-service")),
                None => match home {
                    Some(h) => Ok(h.concat("/.config/openlist-service")),
                    None => Err(ProcessError::PersistenceError),
                },
            }
        },
    }
}

/// The full path of the configuration document inside its directory.
pub fn get_config_file_path(config_dir: &str) -> (r: String)
    ensures
        r@ == config_dir@ + "/"@ + CONFIG_FILE_NAME@,
{
    let mut r = String::from_str(config_dir);
    r.append("/");
    r.append(CONFIG_FILE_NAME);
    r
}

/// Whether configured processes are auto-started at boot, from the
/// `PROCESS_MANAGER_AUTO_START` environment value: `"true"` and `"1"`
/// enable it, absence defaults to enabled, and any other value disables
/// it.
pub fn should_auto_start(value: Option<&String>) -> (r: bool)
    ensures
        r == (match value {
            Some(v) => v@ == "true"@ || v@ == "1"@,
            None => true,
        }),
{
    match value {
        Some(v) => {
            let t = String::from_str("true");
            let one = String::from_str("1");
            *v == t || *v == one
        },
        None => true,
    }
}

/// Whether `c` separates path components on the given platform: `/`
/// everywhere, and `\` as well on the Windows family.
pub open spec fn spec_is_sep(platform: Platform, c: char) -> bool {
    c == '/' || (platform == Platform::Windows && c == '\\')
}

fn is_sep(platform: Platform, c: char) -> (r: bool)
    ensures
        r == spec_is_sep(platform, c),
{
    c == '/' || (matches!(platform, Platform::Windows) && c == '\\')
}

pub open spec fn spec_is_ascii_letter(c: char) -> bool {
    (97 <= c as u32 && c as u32 <= 122) || (65 <= c as u32 && c as u32 <= 90)
}

/// Whether the command path is absolute: rooted at `/` on the Unix
/// family; a drive-letter path (`C:\...`, `C:/...`) or a UNC path
/// (`\\server\...`) on the Windows family.
pub open spec fn spec_is_absolute(platform: Platform, s: Seq<char>) -> bool {
    if platform == Platform::Windows {
        ||| (s.len() >= 3 && spec_is_ascii_letter(s[0]) && s[1] == ':' && spec_is_sep(
            platform,
            s[2],
        ))
        ||| (s.len() >= 2 && spec_is_sep(platform, s[0]) && spec_is_sep(platform, s[1]))
    } else {
        s.len() > 0 && s[0] == '/'
    }
}

/// The path with its trailing separators removed.
pub open spec fn spec_trim_seps(platform: Platform, s: Seq<char>) -> Seq<char>
    decreases s.len(),
{
    if s.len() > 0 && spec_is_sep(platform, s.last()) {
        spec_trim_seps(platform, s.drop_last())
    } else {
        s
    }
}

/// The index of the last separator in `s`, or -1 when there is none.
pub open spec fn spec_last_sep(platform: Platform, s: Seq<char>) -> int
    decreases s.len(),
{
    if s.len() == 0 {
        -1
    } else if spec_is_sep(platform, s.last()) {
        s.len() - 1
    } else {
        spec_last_sep(platform, s.drop_last())
    }
}

/// The working directory a spawned process gets: for an absolute
/// command path, the path's parent — trailing separators are ignored,
/// the final component is dropped, a file directly under the Unix root
/// gets `/`, one directly under a drive root gets the root itself
/// (`C:\`), and a bare root has no parent and yields `.`; for a
/// relative path, the supervisor's own current directory, spelled `.`.
pub open spec fn spec_working_dir(platform: Platform, cmd: Seq<char>) -> Seq<char> {
    if !spec_is_absolute(platform, cmd) {
        "."@
    } else {
        let t = spec_trim_seps(platform, cmd);
        let l = spec_last_sep(platform, t);
        if l < 0 {
            "."@
        } else {
            let p = spec_trim_seps(platform, t.subrange(0, l));
            if p.len() == 0 {
                cmd.subrange(0, 1)
            } else if platform == Platform::Windows && p.len() == 2 && p[1] == ':' {
                p + t.subrange(l, l + 1)
            } else {
                p
            }
        }
    }
}

proof fn lemma_trim_at(platform: Platform, s: Seq<char>, e: int)
    requires
        0 <= e <= s.len(),
        forall|j: int| e <= j < s.len() ==> spec_is_sep(platform, s[j]),
        e > 0 ==> !spec_is_sep(platform, s[e - 1]),
    ensures
        spec_trim_seps(platform, s) == s.subrange(0, e),
    decreases s.len(),
{
    if s.len() == 0 {
        assert(spec_trim_seps(platform, s) =~= s.subrange(0, e));
    } else if spec_is_sep(platform, s.last()) {
        assert(e < s.len());
        lemma_trim_at(platform, s.drop_last(), e);
        assert(s.drop_last().subrange(0, e) =~= s.subrange(0, e));
    } else {
        assert(e == s.len());
        assert(spec_trim_seps(platform, s) =~= s.subrange(0, e));
    }
}

proof fn lemma_last_sep_at(platform: Platform, s: Seq<char>, k: int)
    requires
        0 <= k < s.len(),
        spec_is_sep(platform, s[k]),
        forall|j: int| k < j < s.len() ==> !spec_is_sep(platform, s[j]),
    ensures
        spec_last_sep(platform, s) == k,
    decreases s.len(),
{
    if k == s.len() - 1 {
    } else {
        assert(!spec_is_sep(platform, s.last()));
        lemma_last_sep_at(platform, s.drop_last(), k);
    }
}

proof fn lemma_no_sep(platform: Platform, s: Seq<char>)
    requires
        forall|j: int| 0 <= j < s.len() ==> !spec_is_sep(platform, s[j]),
    ensures
        spec_last_sep(platform, s) == -1,
    decreases s.len(),
{
    if s.len() > 0 {
        lemma_no_sep(platform, s.drop_last());
    }
}

fn is_ascii_letter(c: char) -> (r: bool)
    ensures
        r == spec_is_ascii_letter(c),
{
    let u = c as u32;
    (97 <= u && u <= 122) || (65 <= u && u <= 90)
}

fn is_absolute(platform: Platform, command: &str, n: usize) -> (r: bool)
    requires
        n == command@.len(),
    ensures
        r == spec_is_absolute(platform, command@),
{
    if matches!(platform, Platform::Windows) {
        let drive = n >= 3 && is_ascii_letter(command.get_char(0)) && command.get_char(1) == ':'
            && is_sep(platform, command.get_char(2));
        let unc = n >= 2 && is_sep(platform, command.get_char(0)) && is_sep(
            platform,
            command.get_char(1),
        );
        drive || unc
    } else {
        n > 0 && command.get_char(0) == '/'
    }
}

/// Scans back from `from`, dropping trailing separators; returns the
/// end of the trimmed prefix.
fn trim_seps_end(platform: Platform, command: &str, n: usize, from: usize) -> (e: usize)
    requires
        n == command@.len(),
        from <= n,
    ensures
        e <= from,
        spec_trim_seps(platform, command@.subrange(0, from as int)) == command@.subrange(
            0,
            e as int,
        ),
{
    let mut e: usize = from;
    while e > 0 && is_sep(platform, command.get_char(e - 1))
        invariant
            e <= from <= n,
            n == command@.len(),
            forall|j: int| e <= j < from ==> spec_is_sep(platform, command@[j]),
        decreases e,
    {
        e = e - 1;
    }
    proof {
        let t = command@.subrange(0, from as int);
        assert forall|j: int| e <= j < t.len() implies spec_is_sep(platform, t[j]) by {
            assert(t[j] == command@[j]);
        }
        lemma_trim_at(platform, t, e as int);
        assert(t.subrange(0, e as int) =~= command@.subrange(0, e as int));
    }
    e
}

pub fn get_working_directory(platform: Platform, command: &str) -> (r: String)
    ensures
        r@ == spec_working_dir(platform, command@),
{
    let n = command.unicode_len();
    if !is_absolute(platform, command, n) {
        return String::from_str(".");
    }
    let e = trim_seps_end(platform, command, n, n);
    let ghost t = spec_trim_seps(platform, command@);
    proof {
        assert(command@.subrange(0, n as int) =~= command@);
        assert(t == command@.subrange(0, e as int));
    }
    let mut k: usize = e;
    while k > 0
        invariant
            k <= e <= n,
            n == command@.len(),
            t == spec_trim_seps(platform, command@),
            t == command@.subrange(0, e as int),
            spec_is_absolute(platform, command@),
            forall|j: int| k <= j < e ==> !spec_is_sep(platform, command@[j]),
        decreases k,
    {
        if is_sep(platform, command.get_char(k - 1)) {
            proof {
                assert forall|j: int| k as int - 1 < j < t.len() implies !spec_is_sep(
                    platform,
                    t[j],
                ) by {
                    assert(t[j] == command@[j]);
                }
                assert(t[k as int - 1] == command@[k as int - 1]);
                lemma_last_sep_at(platform, t, k as int - 1);
            }
            let p_end = trim_seps_end(platform, command, n, k - 1);
            proof {
                assert(t.subrange(0, k as int - 1) =~= command@.subrange(0, k as int - 1));
                assert(spec_trim_seps(platform, t.subrange(0, k as int - 1)) == command@.subrange(
                    0,
                    p_end as int,
                ));
            }
            let ghost p = spec_trim_seps(platform, t.subrange(0, spec_last_sep(platform, t)));
            proof {
                assert(spec_last_sep(platform, t) == k as int - 1);
                assert(p == command@.subrange(0, p_end as int));
                assert(p.len() == p_end);
            }
            proof {
                assert(spec_is_absolute(platform, command@));
                assert(spec_last_sep(platform, spec_trim_seps(platform, command@)) == k as int
                    - 1);
                assert(spec_trim_seps(
                    platform,
                    spec_trim_seps(platform, command@).subrange(0, k as int - 1),
                ) == p);
            }
            if p_end == 0 {
                let d = command.substring_char(0, 1);
                proof {
                    assert(d@ =~= command@.subrange(0, 1));
                    assert(spec_working_dir(platform, command@) == command@.subrange(0, 1));
                }
                return String::from_str(d);
            }
            if matches!(platform, Platform::Windows) && p_end == 2 && command.get_char(1) == ':' {
                let mut d = String::from_str(command.substring_char(0, 2));
                crate::strutil::push_char(&mut d, command.get_char(k - 1));
                proof {
                    assert(p[1] == command@[1]);
                    assert(d@ =~= p + t.subrange(k as int - 1, k as int));
                    assert(spec_working_dir(platform, command@) == p + t.subrange(
                        k as int - 1,
                        k as int,
                    ));
                }
                return d;
            }
            let d = command.substring_char(0, p_end);
            proof {
                assert(p.len() >= 2 ==> p[1] == command@[1]);
                assert(d@ == p);
                assert(spec_working_dir(platform, command@) == p);
            }
            return String::from_str(d);
        }
        k = k - 1;
    }
    proof {
        assert forall|j: int| 0 <= j < t.len() implies !spec_is_sep(platform, t[j]) by {
            assert(t[j] == command@[j]);
        }
        lemma_no_sep(platform, t);
    }
    String::from_str(".")
}

} // verus!
