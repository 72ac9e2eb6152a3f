//! The Hyprland side of game identification: reading the compositor's
//! answer about the active window, and the process's command line.
use vstd::prelude::*;
use crate::identifier::Window;
use crate::text::{chars_of, slice_chars, string_from_chars};

verus! {

/// Whether serde_json parses `text` as a JSON value.
pub uninterp spec fn json_parses(text: Seq<char>) -> bool;

/// `value[key].as_u64()` for the value that serde_json parses from `text`.
pub uninterp spec fn json_u64(text: Seq<char>, key: Seq<char>) -> Option<u64>;

/// `value[key].as_i64()` for the value that serde_json parses from `text`.
pub uninterp spec fn json_i64(text: Seq<char>, key: Seq<char>) -> Option<i64>;

/// `value[key].as_str()` for the value that serde_json parses from `text`.
pub uninterp spec fn json_str(text: Seq<char>, key: Seq<char>) -> Option<Seq<char>>;

/// Calls `serde_json::from_str::<Value>` and tells whether it succeeds.
#[verifier::external_body]
fn parses_as_json(text: &str) -> (b: bool)
    ensures
        b == json_parses(text@),
{
    serde_json::from_str::<serde_json::Value>(text).is_ok()
}

/// Parses `text` with `serde_json::from_str::<Value>` and reads member
/// `key` with `Value::as_u64`; `None` when the text does not parse, the
/// member is missing, or it is not an unsigned integer.
#[verifier::external_body]
fn member_u64(text: &str, key: &str) -> (r: Option<u64>)
    ensures
        r == json_u64(text@, key@),
        !json_parses(text@) ==> r is None,
{
    serde_json::from_str::<serde_json::Value>(text).ok().and_then(|v| v[key].as_u64())
}

/// Parses `text` with `serde_json::from_str::<Value>` and reads member
/// `key` with `Value::as_i64`.
#[verifier::external_body]
fn member_i64(text: &str, key: &str) -> (r: Option<i64>)
    ensures
        r == json_i64(text@, key@),
        !json_parses(text@) ==> r is None,
{
    serde_json::from_str::<serde_json::Value>(text).ok().and_then(|v| v[key].as_i64())
}

/// Parses `text` with `serde_json::from_str::<Value>` and reads member
/// `key` with `Value::as_str`.
#[verifier::external_body]
fn member_str(text: &str, key: &str) -> (r: Option<String>)
    ensures
        match r {
            Some(s) => json_str(text@, key@) == Some(s@),
            None => json_str(text@, key@) is None,
        },
        !json_parses(text@) ==> r is None,
{
    serde_json::from_str::<serde_json::Value>(text).ok().and_then(|v| v[key].as_str().map(|s| s.to_string()))
}

/// Why Hyprland's answer about the active window is refused.
#[derive(Debug, Clone, Copy, PartialEq, Eq, Structural)]
pub enum HyprError {
    NotJson,
    NoPid,
    NoClass,
    NoTitle,
    NoFullscreen,
}

impl HyprError {
    pub fn message(&self) -> (s: &'static str)
        ensures
            s@ == match self {
                HyprError::NotJson => "could not parse json from hypr"@,
                HyprError::NoPid => "no pid in window json"@,
                HyprError::NoClass => "no class in window json"@,
                HyprError::NoTitle => "no title in window json"@,
                HyprError::NoFullscreen => "no fullscreen in window json"@,
            },
    {
        match self {
            HyprError::NotJson => "could not parse json from hypr",
            HyprError::NoPid => "no pid in window json",
            HyprError::NoClass => "no class in window json",
            HyprError::NoTitle => "no title in window json",
            HyprError::NoFullscreen => "no fullscreen in window json",
        }
    }
}

/// The process id of the active window in Hyprland's answer.
pub fn active_window_pid(json: &str) -> (r: Result<u64, HyprError>)
    ensures
        !json_parses(json@) ==> r == Err::<u64, HyprError>(HyprError::NotJson),
        json_parses(json@) ==> match json_u64(json@, "pid"@) {
            Some(p) => r == Ok::<u64, HyprError>(p),
            None => r == Err::<u64, HyprError>(HyprError::NoPid),
        },
{
    if !parses_as_json(json) {
        return Err(HyprError::NotJson);
    }
    match member_u64(json, "pid") {
        Some(p) => Ok(p),
        None => Err(HyprError::NoPid),
    }
}

/// Position of the first `c` in `s`, or its length when there is none.
pub open spec fn index_of(s: Seq<char>, c: char) -> nat
    decreases s.len(),
{
    if s.len() == 0 {
        0
    } else if s[0] == c {
        0
    } else {
        1 + index_of(s.drop_first(), c)
    }
}

/// `s` split at each `c`, as `str::split` splits it (the text always gives
/// at least one piece).
pub open spec fn split_spec(s: Seq<char>, c: char) -> Seq<Seq<char>>
    decreases s.len(),
{
    let k = index_of(s, c);
    if k >= s.len() {
        seq![s]
    } else {
        seq![s.take(k as int)] + split_spec(s.skip(k as int + 1), c)
    }
}

proof fn lemma_index_of(s: Seq<char>, c: char, m: int)
    requires
        0 <= m <= s.len(),
        forall|i: int| 0 <= i < m ==> #[trigger] s[i] != c,
        m == s.len() || s[m] == c,
    ensures
        index_of(s, c) == m,
    decreases s.len(),
{
    if s.len() > 0 && m > 0 {
        let t = s.drop_first();
        assert forall|i: int| 0 <= i < m - 1 implies #[trigger] t[i] != c by {
            assert(t[i] == s[i + 1]);
        }
        if m < s.len() {
            assert(t[m - 1] == s[m]);
        }
        lemma_index_of(t, c, m - 1);
    }
}

/// `s` split at each `c`.
pub fn split_at_char(s: &str, c: char) -> (r: Vec<String>)
    ensures
        crate::text::views(r@) == split_spec(s@, c),
{
    let v = chars_of(s);
    let n = v.len();
    let mut r: Vec<String> = Vec::new();
    let mut p: usize = 0;
    assert(v@.skip(0) =~= v@);
    loop
        invariant
            p <= n,
            n == v@.len(),
            v@ == s@,
            crate::text::views(r@) + split_spec(v@.skip(p as int), c) == split_spec(v@, c),
        decreases n - p,
    {
        let ghost rest = v@.skip(p as int);
        let mut k = p;
        while k < n && v[k] != c
            invariant
                p <= k <= n,
                n == v@.len(),
                forall|i: int| p <= i < k ==> #[trigger] v@[i] != c,
            decreases n - k,
        {
            k = k + 1;
        }
        proof {
            assert forall|i: int| 0 <= i < k - p implies #[trigger] rest[i] != c by {
                assert(rest[i] == v@[i + p]);
            }
            if k < n {
                assert(rest[k - p] == v@[k as int]);
            }
            lemma_index_of(rest, c, k - p);
        }
        let piece = slice_chars(&v, p, k);
        let ghost before = crate::text::views(r@);
        r.push(string_from_chars(piece.as_slice()));
        proof {
            assert(crate::text::views(r@) =~= before.push(piece@));
            if k == n {
                assert(rest =~= piece@);
                assert(split_spec(rest, c) == seq![rest]);
            } else {
                assert(rest.take(k - p) =~= piece@);
                assert(rest.skip(k - p + 1) =~= v@.skip(k + 1));
                assert(split_spec(rest, c) == seq![piece@] + split_spec(v@.skip(k + 1), c));
            }
        }
        if k == n {
            assert(before + seq![piece@] =~= before.push(piece@));
            return r;
        }
        proof {
            assert(before + (seq![piece@] + split_spec(v@.skip(k + 1), c)) =~= before.push(piece@)
                + split_spec(v@.skip(k + 1), c));
        }
        p = k + 1;
    }
}

/// The executable and its arguments, from the text of `/proc/<pid>/comm`
/// split at NUL characters; nothing when it could not be read.
pub open spec fn cmdline_parts(comm: Option<Seq<char>>) -> (Option<Seq<char>>, Seq<Seq<char>>) {
    match comm {
        None => (None, seq![]),
        Some(t) => {
            let parts = split_spec(t, '\0');
            (Some(parts[0]), parts.drop_first())
        },
    }
}

/// The window record for Hyprland's answer about the active window and the
/// text of the process's `comm` file (`None` when it could not be read): a
/// window is fullscreen when Hyprland reports level 2 or more.
pub fn active_window(json: &str, comm: Option<&str>) -> (r: Result<Window, HyprError>)
    ensures
        !json_parses(json@) ==> r == Err::<Window, HyprError>(HyprError::NotJson),
        json_parses(json@) ==> match (json_str(json@, "class"@), json_str(json@, "title"@), json_i64(json@, "fullscreen"@)) {
            (None, _, _) => r == Err::<Window, HyprError>(HyprError::NoClass),
            (Some(_), None, _) => r == Err::<Window, HyprError>(HyprError::NoTitle),
            (Some(_), Some(_), None) => r == Err::<Window, HyprError>(HyprError::NoFullscreen),
            (Some(class), Some(title), Some(level)) => r matches Ok(w) && {
                let (exe, args) = cmdline_parts(match comm {
                    Some(t) => Some(t@),
                    None => None,
                });
                &&& w.class@ == class
                &&& w.title@ == title
                &&& w.fullscreen == (level >= 2)
                &&& (match w.executable {
                    Some(e) => exe == Some(e@),
                    None => exe is None,
                })
                &&& crate::text::views(w.cmdline@) == args
            },
        },
{
    if !parses_as_json(json) {
        return Err(HyprError::NotJson);
    }
    let class = match member_str(json, "class") {
        Some(c) => c,
        None => return Err(HyprError::NoClass),
    };
    let title = match member_str(json, "title") {
        Some(t) => t,
        None => return Err(HyprError::NoTitle),
    };
    let level = match member_i64(json, "fullscreen") {
        Some(l) => l,
        None => return Err(HyprError::NoFullscreen),
    };
    let (executable, cmdline) = process_parts(comm);
    Ok(Window { class, title, executable, cmdline, fullscreen: level >= 2 })
}

/// The executable and its arguments from the text of a process's `comm`
/// file (see [`cmdline_parts`]).
pub fn process_parts(comm: Option<&str>) -> (r: (Option<String>, Vec<String>))
    ensures
        ({
            let (exe, args) = cmdline_parts(
                match comm {
                    Some(t) => Some(t@),
                    None => None,
                },
            );
            &&& (match r.0 {
                Some(e) => exe == Some(e@),
                None => exe is None,
            })
            &&& crate::text::views(r.1@) == args
        }),
{
    match comm {
        None => {
            let v: Vec<String> = Vec::new();
            assert(crate::text::views(v@) =~= Seq::<Seq<char>>::empty());
            (None, v)
        },
        Some(t) => {
            let mut parts = split_at_char(t, '\0');
            proof {
                assert(split_spec(t@, '\0').len() > 0);
            }
            let ghost all = parts@;
            let first = parts.remove(0);
            proof {
                assert(crate::text::views(parts@) =~= crate::text::views(all).drop_first());
            }
            (Some(first), parts)
        },
    }
}

} // verus!
