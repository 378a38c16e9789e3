//! The persisted configuration document: a pretty-printed JSON array of
//! configuration objects, UTF-8, two-space indentation. The renderer is
//! verified against a character-exact specification of the canonical
//! text; the parser accepts exactly that canonical text — whatever it
//! returns is re-rendered and compared with the input, so a successful
//! parse proves the input to be the canonical rendering of the result.

use vstd::prelude::*;
use crate::data::{ProcessConfig, EnvVar};
use crate::strutil::{spec_dec, spec_bool_str, push_char, push_dec, bool_str, string_from_chars};

verus! {

/// The lowercase hexadecimal digit characters.
pub open spec fn spec_hex_digit(d: nat) -> char {
    if d == 0 { '0' }
    else if d == 1 { '1' }
    else if d == 2 { '2' }
    else if d == 3 { '3' }
    else if d == 4 { '4' }
    else if d == 5 { '5' }
    else if d == 6 { '6' }
    else if d == 7 { '7' }
    else if d == 8 { '8' }
    else if d == 9 { '9' }
    else if d == 10 { 'a' }
    else if d == 11 { 'b' }
    else if d == 12 { 'c' }
    else if d == 13 { 'd' }
    else if d == 14 { 'e' }
    else { 'f' }
}

/// How one character appears inside a JSON string: quote, backslash and
/// the common control characters get their short escapes, the remaining
/// control characters a `\u00XX` escape, and everything else stands as
/// itself.
pub open spec fn spec_escape_char(c: char) -> Seq<char> {
    if c == '"' {
        seq!['\\', '"']
    } else if c == '\\' {
        seq!['\\', '\\']
    } else if c == '\n' {
        seq!['\\', 'n']
    } else if c == '\r' {
        seq!['\\', 'r']
    } else if c == '\t' {
        seq!['\\', 't']
    } else if (c as u32) < 0x20 {
        seq!['\\', 'u', '0', '0', spec_hex_digit(((c as u32) / 16) as nat), spec_hex_digit(
            ((c as u32) % 16) as nat,
        )]
    } else {
        seq![c]
    }
}

pub open spec fn spec_escape(s: Seq<char>) -> Seq<char>
    decreases s.len(),
{
    if s.len() == 0 {
        Seq::empty()
    } else {
        spec_escape(s.drop_last()) + spec_escape_char(s.last())
    }
}

/// A JSON string literal: the escaped text between quotes.
pub open spec fn spec_jstr(s: Seq<char>) -> Seq<char> {
    seq!['"'] + spec_escape(s) + seq!['"']
}

pub open spec fn spec_opt_jstr(o: Option<String>) -> Seq<char> {
    match o {
        Some(s) => spec_jstr(s@),
        None => "null"@,
    }
}

/// The lines of the `args` array, one indented string literal each.
pub open spec fn spec_str_lines(items: Seq<Seq<char>>) -> Seq<char>
    decreases items.len(),
{
    if items.len() == 0 {
        Seq::empty()
    } else if items.len() == 1 {
        "      "@ + spec_jstr(items[0])
    } else {
        spec_str_lines(items.drop_last()) + ",\n"@ + "      "@ + spec_jstr(items.last())
    }
}

pub open spec fn spec_str_array(items: Seq<Seq<char>>) -> Seq<char> {
    if items.len() == 0 {
        "[]"@
    } else {
        "[\n"@ + spec_str_lines(items) + "\n    ]"@
    }
}

/// The lines of the `env_vars` object, one indented `"key": "value"`
/// pair each.
pub open spec fn spec_env_lines(entries: Seq<EnvVar>) -> Seq<char>
    decreases entries.len(),
{
    if entries.len() == 0 {
        Seq::empty()
    } else if entries.len() == 1 {
        "      "@ + spec_jstr(entries[0].key@) + ": "@ + spec_jstr(entries[0].value@)
    } else {
        spec_env_lines(entries.drop_last()) + ",\n"@ + "      "@ + spec_jstr(entries.last().key@)
            + ": "@ + spec_jstr(entries.last().value@)
    }
}

pub open spec fn spec_env_value(o: Option<Vec<EnvVar>>) -> Seq<char> {
    match o {
        None => "null"@,
        Some(v) => if v@.len() == 0 {
            "{}"@
        } else {
            "{\n"@ + spec_env_lines(v@) + "\n    }"@
        },
    }
}

/// One configuration object of the document, fields in canonical order.
pub open spec fn spec_config_obj(c: ProcessConfig) -> Seq<char> {
    "{\n    \"id\": "@ + spec_jstr(c.id@) + ",\n    \"name\": "@ + spec_jstr(c.name@)
        + ",\n    \"bin_path\": "@ + spec_jstr(c.bin_path@) + ",\n    \"args\": "@ + spec_str_array(
        c.args.deep_view(),
    ) + ",\n    \"log_file\": "@ + spec_jstr(c.log_file@) + ",\n    \"working_dir\": "@
        + spec_opt_jstr(c.working_dir) + ",\n    \"env_vars\": "@ + spec_env_value(c.env_vars)
        + ",\n    \"auto_restart\": "@ + spec_bool_str(c.auto_restart)
        + ",\n    \"run_as_admin\": "@ + spec_bool_str(c.run_as_admin)
        + ",\n    \"created_at\": "@ + spec_dec(c.created_at as nat) + ",\n    \"updated_at\": "@
        + spec_dec(c.updated_at as nat) + "\n  }"@
}

/// The lines of the document, one indented configuration object each.
pub open spec fn spec_config_lines(cs: Seq<ProcessConfig>) -> Seq<char>
    decreases cs.len(),
{
    if cs.len() == 0 {
        Seq::empty()
    } else if cs.len() == 1 {
        "  "@ + spec_config_obj(cs[0])
    } else {
        spec_config_lines(cs.drop_last()) + ",\n"@ + "  "@ + spec_config_obj(cs.last())
    }
}

/// The whole document.
pub open spec fn spec_configs_doc(cs: Seq<ProcessConfig>) -> Seq<char> {
    if cs.len() == 0 {
        "[]"@
    } else {
        "[\n"@ + spec_config_lines(cs) + "\n]"@
    }
}

fn hex_digit_char(d: u32) -> (c: char)
    requires
        d < 16,
    ensures
        c == spec_hex_digit(d as nat),
{
    if d == 0 { '0' }
    else if d == 1 { '1' }
    else if d == 2 { '2' }
    else if d == 3 { '3' }
    else if d == 4 { '4' }
    else if d == 5 { '5' }
    else if d == 6 { '6' }
    else if d == 7 { '7' }
    else if d == 8 { '8' }
    else if d == 9 { '9' }
    else if d == 10 { 'a' }
    else if d == 11 { 'b' }
    else if d == 12 { 'c' }
    else if d == 13 { 'd' }
    else if d == 14 { 'e' }
    else { 'f' }
}

/// Appends one JSON string literal.
fn push_jstr(out: &mut String, s: &str)
    ensures
        final(out)@ == old(out)@ + spec_jstr(s@),
{
    push_char(out, '"');
    let n = s.unicode_len();
    let mut k: usize = 0;
    while k < n
        invariant
            k <= n,
            n == s@.len(),
            out@ == old(out)@ + seq!['"'] + spec_escape(s@.subrange(0, k as int)),
        decreases n - k,
    {
        let c = s.get_char(k);
        if c == '"' {
            push_char(out, '\\');
            push_char(out, '"');
        } else if c == '\\' {
            push_char(out, '\\');
            push_char(out, '\\');
        } else if c == '\n' {
            push_char(out, '\\');
            push_char(out, 'n');
        } else if c == '\r' {
            push_char(out, '\\');
            push_char(out, 'r');
        } else if c == '\t' {
            push_char(out, '\\');
            push_char(out, 't');
        } else {
            let u = c as u32;
            if u < 0x20 {
                push_char(out, '\\');
                push_char(out, 'u');
                push_char(out, '0');
                push_char(out, '0');
                push_char(out, hex_digit_char(u / 16));
                push_char(out, hex_digit_char(u % 16));
            } else {
                push_char(out, c);
            }
        }
        proof {
            assert(s@.subrange(0, k as int + 1).drop_last() =~= s@.subrange(0, k as int));
            assert(s@.subrange(0, k as int + 1).last() == s@[k as int]);
            assert(out@ =~= old(out)@ + seq!['"'] + spec_escape(s@.subrange(0, k as int + 1)));
        }
        k = k + 1;
    }
    proof {
        assert(s@.subrange(0, s@.len() as int) =~= s@);
    }
    push_char(out, '"');
    proof {
        assert(out@ =~= old(out)@ + spec_jstr(s@));
    }
}

fn push_opt_jstr(out: &mut String, o: &Option<String>)
    ensures
        final(out)@ == old(out)@ + spec_opt_jstr(*o),
{
    match o {
        Some(s) => push_jstr(out, s.as_str()),
        None => out.append("null"),
    }
}

fn push_str_array(out: &mut String, items: &Vec<String>)
    ensures
        final(out)@ == old(out)@ + spec_str_array(items.deep_view()),
{
    if items.len() == 0 {
        out.append("[]");
        return;
    }
    out.append("[\n");
    let mut k: usize = 0;
    while k < items.len()
        invariant
            k <= items@.len(),
            out@ == old(out)@ + "[\n"@ + spec_str_lines(items.deep_view().subrange(0, k as int)),
        decreases items.len() - k,
    {
        if k > 0 {
            out.append(",\n");
        }
        out.append("      ");
        push_jstr(out, items[k].as_str());
        proof {
            let dv = items.deep_view();
            assert(dv[k as int] == items@[k as int]@);
            assert(dv.subrange(0, k as int + 1).drop_last() =~= dv.subrange(0, k as int));
            assert(dv.subrange(0, k as int + 1).last() == dv[k as int]);
            assert(out@ =~= old(out)@ + "[\n"@ + spec_str_lines(dv.subrange(0, k as int + 1)));
        }
        k = k + 1;
    }
    proof {
        assert(items.deep_view().subrange(0, items.deep_view().len() as int) =~= items.deep_view());
    }
    out.append("\n    ]");
    proof {
        assert(out@ =~= old(out)@ + spec_str_array(items.deep_view()));
    }
}

fn push_env_value(out: &mut String, o: &Option<Vec<EnvVar>>)
    ensures
        final(out)@ == old(out)@ + spec_env_value(*o),
{
    let entries = match o {
        None => {
            out.append("null");
            return;
        },
        Some(v) => v,
    };
    if entries.len() == 0 {
        out.append("{}");
        proof {
            assert(out@ =~= old(out)@ + spec_env_value(*o));
        }
        return;
    }
    out.append("{\n");
    let mut k: usize = 0;
    while k < entries.len()
        invariant
            k <= entries@.len(),
            out@ == old(out)@ + "{\n"@ + spec_env_lines(entries@.subrange(0, k as int)),
        decreases entries.len() - k,
    {
        if k > 0 {
            out.append(",\n");
        }
        out.append("      ");
        push_jstr(out, entries[k].key.as_str());
        out.append(": ");
        push_jstr(out, entries[k].value.as_str());
        proof {
            assert(entries@.subrange(0, k as int + 1).drop_last() =~= entries@.subrange(
                0,
                k as int,
            ));
            assert(entries@.subrange(0, k as int + 1).last() == entries@[k as int]);
            assert(out@ =~= old(out)@ + "{\n"@ + spec_env_lines(entries@.subrange(0, k as int + 1)));
        }
        k = k + 1;
    }
    proof {
        assert(entries@.subrange(0, entries@.len() as int) =~= entries@);
    }
    out.append("\n    }");
    proof {
        assert(out@ =~= old(out)@ + spec_env_value(*o));
    }
}

/// Appends one configuration object in canonical form.
#[verifier::rlimit(100)]
#[verifier::spinoff_prover]
fn push_config(out: &mut String, c: &ProcessConfig)
    ensures
        final(out)@ == old(out)@ + spec_config_obj(*c),
{
    out.append("{\n    \"id\": ");
    push_jstr(out, c.id.as_str());
    out.append(",\n    \"name\": ");
    push_jstr(out, c.name.as_str());
    out.append(",\n    \"bin_path\": ");
    push_jstr(out, c.bin_path.as_str());
    out.append(",\n    \"args\": ");
    push_str_array(out, &c.args);
    out.append(",\n    \"log_file\": ");
    push_jstr(out, c.log_file.as_str());
    out.append(",\n    \"working_dir\": ");
    push_opt_jstr(out, &c.working_dir);
    out.append(",\n    \"env_vars\": ");
    push_env_value(out, &c.env_vars);
    out.append(",\n    \"auto_restart\": ");
    out.append(bool_str(c.auto_restart));
    out.append(",\n    \"run_as_admin\": ");
    out.append(bool_str(c.run_as_admin));
    out.append(",\n    \"created_at\": ");
    push_dec(out, c.created_at);
    out.append(",\n    \"updated_at\": ");
    push_dec(out, c.updated_at);
    out.append("\n  }");
    proof {
        assert(out@ =~= old(out)@ + spec_config_obj(*c));
    }
}

/// Renders the whole document in canonical form.
pub fn render_configs(cs: &Vec<ProcessConfig>) -> (r: String)
    ensures
        r@ == spec_configs_doc(cs@),
{
    if cs.len() == 0 {
        return String::from_str("[]");
    }
    let mut out = String::from_str("[\n");
    let mut k: usize = 0;
    while k < cs.len()
        invariant
            k <= cs@.len(),
            out@ == "[\n"@ + spec_config_lines(cs@.subrange(0, k as int)),
        decreases cs.len() - k,
    {
        if k > 0 {
            out.append(",\n");
        }
        out.append("  ");
        push_config(&mut out, &cs[k]);
        proof {
            assert(cs@.subrange(0, k as int + 1).drop_last() =~= cs@.subrange(0, k as int));
            assert(cs@.subrange(0, k as int + 1).last() == cs@[k as int]);
            assert(out@ =~= "[\n"@ + spec_config_lines(cs@.subrange(0, k as int + 1)));
        }
        k = k + 1;
    }
    proof {
        assert(cs@.subrange(0, cs@.len() as int) =~= cs@);
    }
    out.append("\n]");
    proof {
        assert(out@ =~= spec_configs_doc(cs@));
    }
    out
}

pub open spec fn spec_is_ws(c: char) -> bool {
    c == ' ' || c == '\n' || c == '\r' || c == '\t'
}

fn is_ws(c: char) -> (r: bool)
    ensures
        r == spec_is_ws(c),
{
    c == ' ' || c == '\n' || c == '\r' || c == '\t'
}

/// Skips to the first position at or after `i` that does not hold
/// whitespace.
fn skip_ws(s: &str, n: usize, i: usize) -> (r: usize)
    requires
        n == s@.len(),
        i <= n,
    ensures
        i <= r <= n,
        forall|j: int| i <= j < r ==> spec_is_ws(s@[j]),
        r < n ==> !spec_is_ws(s@[r as int]),
{
    let mut k: usize = i;
    while k < n && is_ws(s.get_char(k))
        invariant
            i <= k <= n,
            n == s@.len(),
            forall|j: int| i <= j < k ==> spec_is_ws(s@[j]),
        decreases n - k,
    {
        k = k + 1;
    }
    k
}

/// Matches the literal at position `i`, character for character; it
/// succeeds exactly when the literal stands there.
fn expect_lit(s: &str, n: usize, i: usize, lit: &str) -> (r: Option<usize>)
    requires
        n == s@.len(),
        i <= n,
    ensures
        r matches Some(p) ==> i <= p <= n && p == i + lit@.len(),
        i + lit@.len() <= n && s@.subrange(i as int, i as int + lit@.len() as int) == lit@ ==> r
            == Some((i + lit@.len()) as usize),
{
    let m = lit.unicode_len();
    if m > n - i {
        return None;
    }
    let mut k: usize = 0;
    while k < m
        invariant
            k <= m,
            m == lit@.len(),
            n == s@.len(),
            i + m <= n,
        decreases m - k,
    {
        if s.get_char(i + k) != lit.get_char(k) {
            proof {
                if s@.subrange(i as int, i as int + m as int) == lit@ {
                    assert(s@.subrange(i as int, i as int + m as int)[k as int] == lit@[k as int]);
                    assert(s@[i as int + k as int] == lit@[k as int]);
                }
            }
            return None;
        }
        k = k + 1;
    }
    Some(i + m)
}

fn hex_val(c: char) -> (r: Option<u32>)
    ensures
        r matches Some(v) ==> v < 16,
{
    if c == '0' { Some(0) }
    else if c == '1' { Some(1) }
    else if c == '2' { Some(2) }
    else if c == '3' { Some(3) }
    else if c == '4' { Some(4) }
    else if c == '5' { Some(5) }
    else if c == '6' { Some(6) }
    else if c == '7' { Some(7) }
    else if c == '8' { Some(8) }
    else if c == '9' { Some(9) }
    else if c == 'a' || c == 'A' { Some(10) }
    else if c == 'b' || c == 'B' { Some(11) }
    else if c == 'c' || c == 'C' { Some(12) }
    else if c == 'd' || c == 'D' { Some(13) }
    else if c == 'e' || c == 'E' { Some(14) }
    else if c == 'f' || c == 'F' { Some(15) }
    else { None }
}

fn digit_val(c: char) -> (r: Option<u64>)
    ensures
        r matches Some(v) ==> v < 10,
{
    if c == '0' { Some(0) }
    else if c == '1' { Some(1) }
    else if c == '2' { Some(2) }
    else if c == '3' { Some(3) }
    else if c == '4' { Some(4) }
    else if c == '5' { Some(5) }
    else if c == '6' { Some(6) }
    else if c == '7' { Some(7) }
    else if c == '8' { Some(8) }
    else if c == '9' { Some(9) }
    else { None }
}

/// Parses a JSON string literal starting at `i`, undoing the escapes
/// the renderer uses (plus `\/`, `\b`, `\f` and ASCII `\u` escapes).
fn parse_string(s: &str, n: usize, i: usize) -> (r: Option<(String, usize)>)
    requires
        n == s@.len(),
        i <= n,
    ensures
        r matches Some(p) ==> i < p.1 <= n,
{
    if i >= n || s.get_char(i) != '"' {
        return None;
    }
    let mut out: Vec<char> = Vec::new();
    let mut k: usize = i + 1;
    while k < n
        invariant
            i + 1 <= k <= n,
            n == s@.len(),
        decreases n - k,
    {
        let c = s.get_char(k);
        if c == '"' {
            return Some((string_from_chars(&out), k + 1));
        } else if c == '\\' {
            if k + 1 >= n {
                return None;
            }
            let e = s.get_char(k + 1);
            if e == '"' { out.push('"'); k = k + 2; }
            else if e == '\\' { out.push('\\'); k = k + 2; }
            else if e == '/' { out.push('/'); k = k + 2; }
            else if e == 'n' { out.push('\n'); k = k + 2; }
            else if e == 'r' { out.push('\r'); k = k + 2; }
            else if e == 't' { out.push('\t'); k = k + 2; }
            else if e == 'b' { out.push('\u{0008}'); k = k + 2; }
            else if e == 'f' { out.push('\u{000C}'); k = k + 2; }
            else if e == 'u' {
                if n - k < 6 {
                    return None;
                }
                let h1 = hex_val(s.get_char(k + 2));
                let h2 = hex_val(s.get_char(k + 3));
                let h3 = hex_val(s.get_char(k + 4));
                let h4 = hex_val(s.get_char(k + 5));
                match (h1, h2, h3, h4) {
                    (Some(a), Some(b), Some(c3), Some(d)) => {
                        let v: u32 = a * 4096 + b * 256 + c3 * 16 + d;
                        if v < 0x80 {
                            out.push((v as u8) as char);
                            k = k + 6;
                        } else {
                            return None;
                        }
                    },
                    _ => {
                        return None;
                    },
                }
            } else {
                return None;
            }
        } else {
            out.push(c);
            k = k + 1;
        }
    }
    None
}

/// Parses an unsigned decimal number starting at `i`.
fn parse_u64(s: &str, n: usize, i: usize) -> (r: Option<(u64, usize)>)
    requires
        n == s@.len(),
        i <= n,
    ensures
        r matches Some(p) ==> i < p.1 <= n,
{
    let mut k: usize = i;
    let mut v: u64 = 0;
    while k < n
        invariant
            i <= k <= n,
            n == s@.len(),
        decreases n - k,
    {
        let c = s.get_char(k);
        match digit_val(c) {
            None => {
                break ;
            },
            Some(d) => {
                let ten = match v.checked_mul(10) {
                    Some(t) => t,
                    None => {
                        return None;
                    },
                };
                v = match ten.checked_add(d) {
                    Some(t) => t,
                    None => {
                        return None;
                    },
                };
                k = k + 1;
            },
        }
    }
    if k > i {
        Some((v, k))
    } else {
        None
    }
}

fn parse_bool(s: &str, n: usize, i: usize) -> (r: Option<(bool, usize)>)
    requires
        n == s@.len(),
        i <= n,
    ensures
        r matches Some(p) ==> i < p.1 <= n,
{
    match expect_lit(s, n, i, "true") {
        Some(p) => {
            proof {
                reveal_strlit("true");
            }
            Some((true, p))
        },
        None => match expect_lit(s, n, i, "false") {
            Some(p) => {
                proof {
                    reveal_strlit("false");
                }
                Some((false, p))
            },
            None => None,
        },
    }
}

/// Parses a string or `null`.
fn parse_opt_string(s: &str, n: usize, i: usize) -> (r: Option<(Option<String>, usize)>)
    requires
        n == s@.len(),
        i <= n,
    ensures
        r matches Some(p) ==> i < p.1 <= n,
{
    match expect_lit(s, n, i, "null") {
        Some(p) => {
            proof {
                reveal_strlit("null");
            }
            Some((None, p))
        },
        None => match parse_string(s, n, i) {
            Some((t, p)) => Some((Some(t), p)),
            None => None,
        },
    }
}

/// Parses an array of strings.
fn parse_str_array(s: &str, n: usize, i: usize) -> (r: Option<(Vec<String>, usize)>)
    requires
        n == s@.len(),
        i <= n,
    ensures
        r matches Some(p) ==> i < p.1 <= n,
{
    let mut k: usize = match expect_lit(s, n, i, "[") {
        Some(p) => p,
        None => {
            return None;
        },
    };
    proof {
        reveal_strlit("[");
    }
    let mut out: Vec<String> = Vec::new();
    k = skip_ws(s, n, k);
    if k < n && s.get_char(k) == ']' {
        return Some((out, k + 1));
    }
    loop
        invariant
            i < k <= n,
            n == s@.len(),
        decreases n - k,
    {
        let (t, p) = match parse_string(s, n, k) {
            Some(tp) => tp,
            None => {
                return None;
            },
        };
        out.push(t);
        k = skip_ws(s, n, p);
        if k >= n {
            return None;
        }
        if s.get_char(k) == ']' {
            return Some((out, k + 1));
        }
        if s.get_char(k) != ',' {
            return None;
        }
        k = skip_ws(s, n, k + 1);
        if k >= n {
            return None;
        }
    }
}

/// Parses an environment object or `null`.
fn parse_env_value(s: &str, n: usize, i: usize) -> (r: Option<(Option<Vec<EnvVar>>, usize)>)
    requires
        n == s@.len(),
        i <= n,
    ensures
        r matches Some(p) ==> i < p.1 <= n,
{
    match expect_lit(s, n, i, "null") {
        Some(p) => {
            proof {
                reveal_strlit("null");
            }
            return Some((None, p));
        },
        None => {},
    }
    let mut k: usize = match expect_lit(s, n, i, "{") {
        Some(p) => p,
        None => {
            return None;
        },
    };
    proof {
        reveal_strlit("{");
    }
    let mut out: Vec<EnvVar> = Vec::new();
    k = skip_ws(s, n, k);
    if k < n && s.get_char(k) == '}' {
        return Some((Some(out), k + 1));
    }
    loop
        invariant
            i < k <= n,
            n == s@.len(),
        decreases n - k,
    {
        let (key, p1) = match parse_string(s, n, k) {
            Some(tp) => tp,
            None => {
                return None;
            },
        };
        let p2 = skip_ws(s, n, p1);
        let p3 = match expect_lit(s, n, p2, ":") {
            Some(p) => p,
            None => {
                return None;
            },
        };
        proof {
            reveal_strlit(":");
        }
        let p4 = skip_ws(s, n, p3);
        let (value, p5) = match parse_string(s, n, p4) {
            Some(tp) => tp,
            None => {
                return None;
            },
        };
        out.push(EnvVar { key, value });
        k = skip_ws(s, n, p5);
        if k >= n {
            return None;
        }
        if s.get_char(k) == '}' {
            return Some((Some(out), k + 1));
        }
        if s.get_char(k) != ',' {
            return None;
        }
        k = skip_ws(s, n, k + 1);
        if k >= n {
            return None;
        }
    }
}

/// Matches `"name":` (the quoted key, optional whitespace, the colon)
/// and returns the position after the following whitespace.
fn expect_key(s: &str, n: usize, i: usize, quoted_key: &str) -> (r: Option<usize>)
    requires
        n == s@.len(),
        i <= n,
    ensures
        r matches Some(p) ==> i <= p <= n,
{
    let p1 = match expect_lit(s, n, i, quoted_key) {
        Some(p) => p,
        None => {
            return None;
        },
    };
    let p2 = skip_ws(s, n, p1);
    let p3 = match expect_lit(s, n, p2, ":") {
        Some(p) => p,
        None => {
            return None;
        },
    };
    Some(skip_ws(s, n, p3))
}

/// Parses one configuration object, fields in canonical order.
fn parse_config(s: &str, n: usize, i: usize) -> (r: Option<(ProcessConfig, usize)>)
    requires
        n == s@.len(),
        i <= n,
    ensures
        r matches Some(p) ==> i <= p.1 <= n,
{
    let mut k: usize = match expect_lit(s, n, i, "{") {
        Some(p) => p,
        None => {
            return None;
        },
    };
    k = skip_ws(s, n, k);
    let k1 = match expect_key(s, n, k, "\"id\"") {
        Some(p) => p,
        None => {
            return None;
        },
    };
    let (id, p1) = match parse_string(s, n, k1) {
        Some(tp) => tp,
        None => {
            return None;
        },
    };
    let k2 = match after_comma_key(s, n, p1, "\"name\"") {
        Some(p) => p,
        None => {
            return None;
        },
    };
    let (name, p2) = match parse_string(s, n, k2) {
        Some(tp) => tp,
        None => {
            return None;
        },
    };
    let k3 = match after_comma_key(s, n, p2, "\"bin_path\"") {
        Some(p) => p,
        None => {
            return None;
        },
    };
    let (bin_path, p3) = match parse_string(s, n, k3) {
        Some(tp) => tp,
        None => {
            return None;
        },
    };
    let k4 = match after_comma_key(s, n, p3, "\"args\"") {
        Some(p) => p,
        None => {
            return None;
        },
    };
    let (args, p4) = match parse_str_array(s, n, k4) {
        Some(tp) => tp,
        None => {
            return None;
        },
    };
    let k5 = match after_comma_key(s, n, p4, "\"log_file\"") {
        Some(p) => p,
        None => {
            return None;
        },
    };
    let (log_file, p5) = match parse_string(s, n, k5) {
        Some(tp) => tp,
        None => {
            return None;
        },
    };
    let k6 = match after_comma_key(s, n, p5, "\"working_dir\"") {
        Some(p) => p,
        None => {
            return None;
        },
    };
    let (working_dir, p6) = match parse_opt_string(s, n, k6) {
        Some(tp) => tp,
        None => {
            return None;
        },
    };
    let k7 = match after_comma_key(s, n, p6, "\"env_vars\"") {
        Some(p) => p,
        None => {
            return None;
        },
    };
    let (env_vars, p7) = match parse_env_value(s, n, k7) {
        Some(tp) => tp,
        None => {
            return None;
        },
    };
    let k8 = match after_comma_key(s, n, p7, "\"auto_restart\"") {
        Some(p) => p,
        None => {
            return None;
        },
    };
    let (auto_restart, p8) = match parse_bool(s, n, k8) {
        Some(tp) => tp,
        None => {
            return None;
        },
    };
    let k9 = match after_comma_key(s, n, p8, "\"run_as_admin\"") {
        Some(p) => p,
        None => {
            return None;
        },
    };
    let (run_as_admin, p9) = match parse_bool(s, n, k9) {
        Some(tp) => tp,
        None => {
            return None;
        },
    };
    let k10 = match after_comma_key(s, n, p9, "\"created_at\"") {
        Some(p) => p,
        None => {
            return None;
        },
    };
    let (created_at, p10) = match parse_u64(s, n, k10) {
        Some(tp) => tp,
        None => {
            return None;
        },
    };
    let k11 = match after_comma_key(s, n, p10, "\"updated_at\"") {
        Some(p) => p,
        None => {
            return None;
        },
    };
    let (updated_at, p11) = match parse_u64(s, n, k11) {
        Some(tp) => tp,
        None => {
            return None;
        },
    };
    let p12 = skip_ws(s, n, p11);
    let end = match expect_lit(s, n, p12, "}") {
        Some(p) => p,
        None => {
            return None;
        },
    };
    Some((
        ProcessConfig {
            id,
            name,
            bin_path,
            args,
            log_file,
            working_dir,
            env_vars,
            auto_restart,
            run_as_admin,
            created_at,
            updated_at,
        },
        end,
    ))
}

/// Matches the separating comma, whitespace, and the next quoted key.
fn after_comma_key(s: &str, n: usize, i: usize, quoted_key: &str) -> (r: Option<usize>)
    requires
        n == s@.len(),
        i <= n,
    ensures
        r matches Some(p) ==> i <= p <= n,
{
    let p1 = skip_ws(s, n, i);
    let p2 = match expect_lit(s, n, p1, ",") {
        Some(p) => p,
        None => {
            return None;
        },
    };
    let p3 = skip_ws(s, n, p2);
    expect_key(s, n, p3, quoted_key)
}

/// Scans a document: a JSON array of configuration objects in the
/// canonical field order, whitespace-tolerantly. What it accepts is
/// then held against the canonical rendering by `parse_configs`. The
/// empty document is provably accepted; the non-empty canonical
/// documents are accepted as well, which the render-and-compare tests
/// exercise.
fn parse_configs_raw(s: &str) -> (r: Option<Vec<ProcessConfig>>)
    ensures
        s@ == spec_configs_doc(Seq::<ProcessConfig>::empty()) ==> (r matches Some(v) && v@
            == Seq::<ProcessConfig>::empty()),
{
    let ghost empty_doc = s@ == spec_configs_doc(Seq::<ProcessConfig>::empty());
    proof {
        reveal_strlit("[]");
        reveal_strlit("[");
        if empty_doc {
            assert(s@ =~= "[]"@);
            assert(s@.len() == 2 && s@[0] == '[' && s@[1] == ']');
        }
    }
    let n = s.unicode_len();
    let k0 = skip_ws(s, n, 0);
    proof {
        if empty_doc {
            if k0 > 0 {
                assert(spec_is_ws(s@[0]));
            }
            assert(k0 == 0);
            assert(s@.subrange(0, 1) =~= "["@);
        }
    }
    let mut k: usize;
    match expect_lit(s, n, k0, "[") {
        Some(p) => {
            k = p;
        },
        None => {
            proof {
                if empty_doc {
                    assert(false);
                }
            }
            return None;
        },
    }
    proof {
        if empty_doc {
            assert(k == 1);
        }
    }
    let mut out: Vec<ProcessConfig> = Vec::new();
    k = skip_ws(s, n, k);
    proof {
        if empty_doc {
            if k > 1 {
                assert(spec_is_ws(s@[1]));
            }
            assert(k == 1);
        }
    }
    if k < n && s.get_char(k) == ']' {
        let fin = skip_ws(s, n, k + 1);
        if fin == n {
            return Some(out);
        } else {
            proof {
                if empty_doc {
                    assert(fin >= k + 1 && fin <= n);
                    assert(false);
                }
            }
            return None;
        }
    }
    proof {
        if empty_doc {
            assert(false);
        }
    }
    loop
        invariant
            k <= n,
            n == s@.len(),
            s@ != spec_configs_doc(Seq::<ProcessConfig>::empty()),
        decreases n - k,
    {
        let (c, p) = match parse_config(s, n, k) {
            Some(cp) => cp,
            None => {
                return None;
            },
        };
        if p <= k {
            return None;
        }
        out.push(c);
        k = skip_ws(s, n, p);
        if k >= n {
            return None;
        }
        if s.get_char(k) == ']' {
            let fin = skip_ws(s, n, k + 1);
            if fin == n {
                return Some(out);
            } else {
                return None;
            }
        }
        if s.get_char(k) != ',' {
            return None;
        }
        let k2 = skip_ws(s, n, k + 1);
        if k2 <= k {
            return None;
        }
        k = k2;
    }
}

/// Parses a configuration document. Exactly the canonical documents —
/// the texts `render_configs` produces — are accepted: the scanned
/// configurations are rendered again and the result is compared with
/// the input, so a `Some` answer carries the guarantee that the input
/// is the canonical rendering of the returned configurations. A
/// reordered or reformatted document is refused.
pub fn parse_configs(s: &str) -> (r: Option<Vec<ProcessConfig>>)
    ensures
        r matches Some(v) ==> s@ == spec_configs_doc(v@),
        s@ == spec_configs_doc(Seq::<ProcessConfig>::empty()) ==> r is Some,
{
    match parse_configs_raw(s) {
        None => None,
        Some(v) => {
            let rendered = render_configs(&v);
            let original = String::from_str(s);
            if rendered == original {
                Some(v)
            } else {
                proof {
                    if s@ == spec_configs_doc(Seq::<ProcessConfig>::empty()) {
                        assert(rendered@ == s@);
                        assert(false);
                    }
                }
                None
            }
        },
    }
}

} // verus!
