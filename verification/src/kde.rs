//! The KDE side of game identification: reading what `kdotool` answered
//! and what KWin reports of a window.
use vstd::prelude::*;
use crate::identifier::Window;
use crate::text::{
    chars_of, decimal, extend_chars, extend_str, is_white_space, push_decimal, string_from_chars,
};

verus! {

/// The text that `Display` writes for an `i32`.
pub open spec fn i32_text(n: i32) -> Seq<char> {
    if n < 0 {
        seq!['-'] + decimal((-(n as int)) as nat)
    } else {
        decimal(n as nat)
    }
}

/// Appends `n` as `Display` writes an `i32`.
pub fn push_i32(out: &mut Vec<char>, n: i32)
    ensures
        final(out)@ == old(out)@ + i32_text(n),
{
    if n < 0 {
        out.push('-');
        let m: u64 = if n == i32::MIN {
            2147483648u64
        } else {
            (-n) as u64
        };
        push_decimal(out, m);
    } else {
        push_decimal(out, n as u64);
    }
}

/// What became of a `kdotool` run.
#[derive(Debug)]
pub struct KdotoolOutcome {
    /// its standard output, when it exited successfully; otherwise the error text
    pub result: Result<Vec<char>, Vec<char>>,
    /// whether its standard error holds something worth a warning
    pub warn: bool,
}

/// Reads a finished `kdotool` run from its exit status, exit code (if it
/// exited normally) and decoded output streams: on failure the error holds
/// the standard error, a blank line and "kdotool returned <code> exit-code"
/// (`unknown` without a code); on success a warning is due when the standard
/// error holds anything but whitespace.
pub fn kdotool_outcome(success: bool, code: Option<i32>, stdout: &str, stderr: &str) -> (r: KdotoolOutcome)
    ensures
        !success ==> (r.result matches Err(e) && e@ == stderr@ + "\n\nkdotool returned "@ + match code {
            Some(c) => i32_text(c),
            None => "unknown"@,
        } + " exit-code"@),
        success ==> (r.result matches Ok(o) && o@ == stdout@),
        !success ==> !r.warn,
        success ==> r.warn == exists|i: int| 0 <= i < stderr@.len() && !is_white_space(#[trigger] stderr@[i]),
{
    if !success {
        let mut e = chars_of(stderr);
        extend_str(&mut e, "\n\nkdotool returned ");
        match code {
            Some(c) => push_i32(&mut e, c),
            None => extend_str(&mut e, "unknown"),
        }
        extend_str(&mut e, " exit-code");
        return KdotoolOutcome { result: Err(e), warn: false };
    }
    let err = chars_of(stderr);
    let mut warn = false;
    let mut i: usize = 0;
    while i < err.len()
        invariant
            i <= err@.len(),
            err@ == stderr@,
            warn == exists|k: int| 0 <= k < i && !is_white_space(#[trigger] err@[k]),
        decreases err@.len() - i,
    {
        if !crate::text::is_whitespace(err[i]) {
            warn = true;
        }
        i = i + 1;
    }
    KdotoolOutcome { result: Ok(chars_of(stdout)), warn }
}


/// Why KWin's description of a window cannot be read.
#[derive(Debug, Clone, Copy, PartialEq, Eq, Structural)]
pub enum KdeField {
    MissingTitle,
    TitleNotString,
    MissingClass,
    ClassNotString,
    MissingFullscreen,
    InvalidFullscreen,
    MissingPid,
    InvalidPid,
}

impl KdeField {
    /// The error's text.
    pub fn message(&self) -> (s: &'static str)
        ensures
            s@ == match self {
                KdeField::MissingTitle => "missing title"@,
                KdeField::TitleNotString => "title is not a String"@,
                KdeField::MissingClass => "missing class"@,
                KdeField::ClassNotString => "class is not a String"@,
                KdeField::MissingFullscreen => "missing fullscreen"@,
                KdeField::InvalidFullscreen => "invalid fulscreen bool"@,
                KdeField::MissingPid => "missing pid"@,
                KdeField::InvalidPid => "invalid pid"@,
            },
    {
        match self {
            KdeField::MissingTitle => "missing title",
            KdeField::TitleNotString => "title is not a String",
            KdeField::MissingClass => "missing class",
            KdeField::ClassNotString => "class is not a String",
            KdeField::MissingFullscreen => "missing fullscreen",
            KdeField::InvalidFullscreen => "invalid fulscreen bool",
            KdeField::MissingPid => "missing pid",
            KdeField::InvalidPid => "invalid pid",
        }
    }
}

/// A text entry of KWin's window information: absent, holding a value that
/// is not a string, or holding a string.
#[derive(Debug)]
pub enum InfoText {
    Missing,
    NotText,
    Text(String),
}

/// What `bool::from_str` reads from `t`.
pub open spec fn bool_of_text(t: Seq<char>) -> Option<bool> {
    if t == "true"@ {
        Some(true)
    } else if t == "false"@ {
        Some(false)
    } else {
        None
    }
}

/// Whether `s` consists of ASCII digits.
pub open spec fn all_digits(s: Seq<char>) -> bool {
    forall|i: int| 0 <= i < s.len() ==> '0' <= #[trigger] s[i] && s[i] <= '9'
}

/// The number that the decimal digits `s` write.
pub open spec fn digits_value(s: Seq<char>) -> nat
    decreases s.len(),
{
    if s.len() == 0 {
        0
    } else {
        digits_value(s.drop_last()) * 10 + ((s.last() as int) - ('0' as int)) as nat
    }
}

/// What `u64::from_str` reads from `t`: decimal digits, at least one, after
/// an optional `+`, writing a number that fits.
pub open spec fn u64_of_text(t: Seq<char>) -> Option<u64> {
    let digits = if t.len() > 0 && t[0] == '+' {
        t.drop_first()
    } else {
        t
    };
    if digits.len() > 0 && all_digits(digits) && digits_value(digits) <= u64::MAX {
        Some(digits_value(digits) as u64)
    } else {
        None
    }
}

proof fn lemma_digits_value_grows(s: Seq<char>, k: int)
    requires
        0 <= k <= s.len(),
        all_digits(s),
    ensures
        digits_value(s.take(k)) <= digits_value(s),
    decreases s.len(),
{
    if k < s.len() {
        let d = s.drop_last();
        assert(d.take(k) =~= s.take(k));
        assert(all_digits(d)) by {
            assert forall|i: int| 0 <= i < d.len() implies '0' <= #[trigger] d[i] && d[i] <= '9' by {
                assert(d[i] == s[i]);
            }
        }
        lemma_digits_value_grows(d, k);
    } else {
        assert(s.take(k) =~= s);
    }
}

/// Reads a `bool` from text as `bool::from_str` does.
pub fn parse_bool(t: &str) -> (r: Option<bool>)
    ensures
        r == bool_of_text(t@),
{
    proof {
        reveal_strlit("true");
        reveal_strlit("false");
    }
    let v = chars_of(t);
    if crate::protocol::chars_are(&v, "true") {
        Some(true)
    } else if crate::protocol::chars_are(&v, "false") {
        Some(false)
    } else {
        None
    }
}

/// Reads a `u64` from text as `u64::from_str` does.
pub fn parse_u64(t: &str) -> (r: Option<u64>)
    ensures
        r == u64_of_text(t@),
{
    let v = chars_of(t);
    let start: usize = if v.len() > 0 && v[0] == '+' {
        1
    } else {
        0
    };
    let ghost digits = if t@.len() > 0 && t@[0] == '+' {
        t@.drop_first()
    } else {
        t@
    };
    assert(digits =~= v@.skip(start as int));
    if v.len() == start {
        return None;
    }
    let mut value: u64 = 0;
    let mut i: usize = start;
    assert(digits.take(0) =~= Seq::<char>::empty());
    while i < v.len()
        invariant
            start <= i <= v@.len(),
            digits == v@.skip(start as int),
            digits == (if t@.len() > 0 && t@[0] == '+' {
                t@.drop_first()
            } else {
                t@
            }),
            all_digits(digits.take(i - start)),
            value == digits_value(digits.take(i - start)),
        decreases v@.len() - i,
    {
        let c = v[i];
        let ghost prefix = digits.take((i - start + 1) as int);
        assert(prefix.drop_last() =~= digits.take(i - start));
        assert(prefix.last() == c);
        if c < '0' || c > '9' {
            assert(!all_digits(digits)) by {
                assert(digits[i - start] == c);
            }
            return None;
        }
        let d: u64 = (c as u64) - ('0' as u64);
        assert(all_digits(prefix)) by {
            assert forall|k: int| 0 <= k < prefix.len() implies '0' <= #[trigger] prefix[k] && prefix[k] <= '9' by {
                if k < prefix.len() - 1 {
                    assert(prefix[k] == digits.take(i - start)[k]);
                }
            }
        }
        assert(digits_value(prefix) == value * 10 + d);
        if value > (u64::MAX - d) / 10 {
            proof {
                assert(value * 10 + d > u64::MAX) by (nonlinear_arith)
                    requires
                        value > (u64::MAX - d) / 10,
                        d <= 9,
                ;
                if all_digits(digits) {
                    lemma_digits_value_grows(digits, i - start + 1);
                }
            }
            return None;
        }
        assert(value * 10 + d <= u64::MAX) by (nonlinear_arith)
            requires
                value <= (u64::MAX - d) / 10,
                d <= 9,
        ;
        value = value * 10 + d;
        i = i + 1;
    }
    assert(digits.take(v@.len() - start) =~= digits);
    Some(value)
}

/// The fields that game identification reads from KWin's description of a
/// window.
#[derive(Debug)]
pub struct KdeWindowFields {
    pub title: String,
    pub class: String,
    pub fullscreen: bool,
    pub pid: u64,
}

/// The first field of KWin's description that cannot be read, in the order
/// caption, class, fullscreen, pid.
pub open spec fn kde_field_error(caption: InfoText, class: InfoText, fullscreen: Option<String>, pid: Option<String>) -> Option<KdeField> {
    if caption is Missing {
        Some(KdeField::MissingTitle)
    } else if caption is NotText {
        Some(KdeField::TitleNotString)
    } else if class is Missing {
        Some(KdeField::MissingClass)
    } else if class is NotText {
        Some(KdeField::ClassNotString)
    } else if fullscreen is None {
        Some(KdeField::MissingFullscreen)
    } else if bool_of_text(fullscreen->0@) is None {
        Some(KdeField::InvalidFullscreen)
    } else if pid is None {
        Some(KdeField::MissingPid)
    } else if u64_of_text(pid->0@) is None {
        Some(KdeField::InvalidPid)
    } else {
        None
    }
}

/// Reads KWin's description of a window: its caption and resource class
/// (strings), and the texts of its fullscreen flag and process id, read as
/// `bool` and `u64`. The first entry that is missing or unreadable is the
/// error.
pub fn kde_window_fields(caption: InfoText, class: InfoText, fullscreen: Option<String>, pid: Option<String>) -> (r: Result<KdeWindowFields, KdeField>)
    ensures
        match kde_field_error(caption, class, fullscreen, pid) {
            Some(e) => r matches Err(x) && x == e,
            None => r matches Ok(w) && w.title@ == caption->Text_0@ && w.class@ == class->Text_0@ && Some(w.fullscreen) == bool_of_text(fullscreen->0@) && Some(w.pid) == u64_of_text(pid->0@),
        },
{
    let title = match caption {
        InfoText::Missing => return Err(KdeField::MissingTitle),
        InfoText::NotText => return Err(KdeField::TitleNotString),
        InfoText::Text(t) => t,
    };
    let class = match class {
        InfoText::Missing => return Err(KdeField::MissingClass),
        InfoText::NotText => return Err(KdeField::ClassNotString),
        InfoText::Text(c) => c,
    };
    let fullscreen = match fullscreen {
        None => return Err(KdeField::MissingFullscreen),
        Some(f) => match parse_bool(f.as_str()) {
            None => return Err(KdeField::InvalidFullscreen),
            Some(b) => b,
        },
    };
    let pid = match pid {
        None => return Err(KdeField::MissingPid),
        Some(p) => match parse_u64(p.as_str()) {
            None => return Err(KdeField::InvalidPid),
            Some(n) => n,
        },
    };
    Ok(KdeWindowFields { title, class, fullscreen, pid })
}

/// The window record for KWin's description of a window and the text of its
/// process's `comm` file, which gives the executable and its arguments (see
/// [`crate::hypr::cmdline_parts`]).
pub fn kde_window(fields: KdeWindowFields, comm: &str) -> (w: Window)
    ensures
        w.title == fields.title,
        w.class == fields.class,
        w.fullscreen == fields.fullscreen,
        ({
            let (exe, args) = crate::hypr::cmdline_parts(Some(comm@));
            &&& (match w.executable {
                Some(e) => exe == Some(e@),
                None => exe is None,
            })
            &&& crate::text::views(w.cmdline@) == args
        }),
{
    let (executable, cmdline) = crate::hypr::process_parts(Some(comm));
    Window { class: fields.class, title: fields.title, executable, cmdline, fullscreen: fields.fullscreen }
}

} // verus!
