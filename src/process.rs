use vstd::prelude::*;

use crate::address::index_of;
use crate::choice::{dec_value, is_digit, strip_back};
use crate::text::{chars_of, is_space_char};

verus! {

/// A process id and the attributes that identify it.
#[derive(Debug, Clone, Default, PartialEq, Eq)]
pub struct ProcessAttr {
    pub pid: i32,
    pub cmdline: String,
    /// The value of the `Name:` line of the process status.
    status_name: String,
}

/// The model of a process entry.
pub struct ProcessView {
    pub pid: i32,
    pub cmdline: Seq<char>,
    pub status_name: Seq<char>,
}

impl View for ProcessAttr {
    type V = ProcessView;

    closed spec fn view(&self) -> ProcessView {
        ProcessView { pid: self.pid, cmdline: self.cmdline@, status_name: self.status_name@ }
    }
}

/// Why a process entry could not be read.
#[derive(Debug, Clone, Copy, PartialEq, Eq)]
pub enum ProcessError {
    /// The directory name is not a process id.
    NotAPid,
    /// The status text has no first line.
    EmptyStatus,
}

/// Why a process id given on the command line is refused.
#[derive(Debug, Clone, Copy, PartialEq, Eq)]
pub enum PidError {
    /// Greater than the system's largest process id, which it carries.
    AbovePidMax(i32),
    /// Not greater than 1 (the init process).
    Illegal,
}

/// Accepts a process id given on the command line when `1 < pid <= pid_max`.
pub fn check_pid(pid: i32, pid_max: i32) -> (r: Result<i32, PidError>)
    ensures
        r == if pid > pid_max {
            Err(PidError::AbovePidMax(pid_max))
        } else if pid <= 1 {
            Err(PidError::Illegal)
        } else {
            Ok::<i32, PidError>(pid)
        },
{
    if pid > pid_max {
        Err(PidError::AbovePidMax(pid_max))
    } else if pid <= 1 {
        Err(PidError::Illegal)
    } else {
        Ok(pid)
    }
}

/// `i32`'s `FromStr`: an optional sign, then one or more decimal digits
/// whose value fits in an `i32`.
pub open spec fn parse_pid(s: Seq<char>) -> Option<i32> {
    let neg = s.len() > 0 && s[0] == '-';
    let d = sign_stripped(s);
    if d.len() == 0 || !all_digits(d) {
        None
    } else if neg && dec_value(d) <= 0x8000_0000 {
        Some((0 - dec_value(d)) as i32)
    } else if !neg && dec_value(d) <= 0x7fff_ffff {
        Some(dec_value(d) as i32)
    } else {
        None
    }
}

/// `s` without one leading sign.
pub open spec fn sign_stripped(s: Seq<char>) -> Seq<char> {
    if s.len() > 0 && (s[0] == '+' || s[0] == '-') {
        s.drop_first()
    } else {
        s
    }
}

pub open spec fn all_digits(d: Seq<char>) -> bool {
    forall|i: int| 0 <= i < d.len() ==> #[trigger] is_digit(d[i])
}

/// The command line as the kernel records it, with its NUL separators shown
/// as spaces and trailing whitespace removed.
pub open spec fn cmdline_of(raw: Seq<char>) -> Seq<char> {
    strip_back(raw.map_values(|c: char| if c == '\0' { ' ' } else { c }))
}

/// `u8::is_ascii_whitespace`, as `str::trim_ascii` uses it.
pub open spec fn is_ascii_space(c: char) -> bool {
    c == ' ' || c == '\t' || c == '\n' || c == '\x0c' || c == '\r'
}

pub open spec fn strip_ascii(s: Seq<char>) -> Seq<char>
    decreases s.len(),
{
    if s.len() > 0 && is_ascii_space(s[0]) {
        strip_ascii(s.drop_first())
    } else if s.len() > 0 && is_ascii_space(s.last()) {
        strip_ascii(s.drop_last())
    } else {
        s
    }
}

/// The name in the first line `Name:<tab>value` of a status text: what
/// follows the first `:`, without surrounding ASCII whitespace, or nothing
/// when the line has no `:`.
pub open spec fn status_name_of(first_line: Seq<char>) -> Seq<char> {
    let p = index_of(first_line, ':');
    if p >= first_line.len() {
        seq![]
    } else {
        strip_ascii(first_line.subrange(p + 1, first_line.len() as int))
    }
}

/// The first line of `text`.
pub open spec fn first_line_of(text: Seq<char>) -> Seq<char> {
    text.take(index_of(text, '\n'))
}

/// Whether `p` occurs in `s`.
pub open spec fn contains(s: Seq<char>, p: Seq<char>) -> bool {
    exists|i: int| 0 <= i <= s.len() - p.len() && #[trigger] s.subrange(i, i + p.len()) == p
}

/// A process that is listed when looking for `input`: it has a command
/// line and its status name contains `input`.
pub open spec fn name_matches(a: ProcessView, input: Seq<char>) -> bool {
    a.cmdline.len() > 0 && contains(a.status_name, input)
}

/// Indices of the processes of `procs` that match `input`, in order.
pub open spec fn matching_indices(procs: Seq<ProcessView>, input: Seq<char>) -> Seq<usize>
    decreases procs.len(),
{
    if procs.len() == 0 {
        seq![]
    } else {
        let prev = matching_indices(procs.drop_last(), input);
        if name_matches(procs.last(), input) {
            prev.push((procs.len() - 1) as usize)
        } else {
            prev
        }
    }
}

fn sub_equal(s: &Vec<char>, at: usize, p: &Vec<char>) -> (r: bool)
    requires
        at + p@.len() <= s@.len(),
    ensures
        r == (s@.subrange(at as int, at + p@.len()) == p@),
{
    let end = s.len();
    let mut k: usize = 0;
    while k < p.len()
        invariant
            end == s@.len(),
            at + p@.len() <= s@.len(),
            k <= p@.len(),
            forall|j: int| 0 <= j < k ==> s@[at + j] == p@[j],
        decreases p@.len() - k,
    {
        if s[at + k] != p[k] {
            assert(s@.subrange(at as int, at + p@.len())[k as int] != p@[k as int]);
            return false;
        }
        k = k + 1;
    }
    proof {
        assert(s@.subrange(at as int, at + p@.len()) =~= p@);
    }
    true
}

/// Whether `p` occurs in `s`.
pub fn contains_str(s: &str, p: &str) -> (r: bool)
    ensures
        r == contains(s@, p@),
{
    let a = chars_of(s);
    let b = chars_of(p);
    if b.len() > a.len() {
        return false;
    }
    let lim = a.len() - b.len();
    let mut i: usize = 0;
    loop
        invariant
            a@ == s@,
            b@ == p@,
            lim == a@.len() - b@.len(),
            i <= lim,
            forall|j: int| 0 <= j < i ==> #[trigger] a@.subrange(j, j + b@.len()) != b@,
        decreases lim - i,
    {
        if sub_equal(&a, i, &b) {
            return true;
        }
        if i == lim {
            return false;
        }
        i = i + 1;
    }
}

impl ProcessAttr {
    /// The process entry made of the name of its `/proc` directory, its raw
    /// command line and its status text.
    pub fn try_new(dir_name: &str, cmdline_raw: &str, status: &str) -> (r: Result<
        ProcessAttr,
        ProcessError,
    >)
        ensures
            match r {
                Ok(a) => parse_pid(dir_name@) == Some(a@.pid) && a@.cmdline == cmdline_of(
                    cmdline_raw@,
                ) && status@.len() > 0 && a@.status_name == status_name_of(
                    first_line_of(status@),
                ),
                Err(e) => (parse_pid(dir_name@) is None && e == ProcessError::NotAPid) || (
                parse_pid(dir_name@) is Some && status@.len() == 0 && e
                    == ProcessError::EmptyStatus),
            },
    {
        let pid = match parse_pid_str(dir_name) {
            Some(p) => p,
            None => return Err(ProcessError::NotAPid),
        };
        let cmdline = normalize_cmdline(cmdline_raw);
        if status.unicode_len() == 0 {
            return Err(ProcessError::EmptyStatus);
        }
        let status_name = status_name_str(status);
        Ok(ProcessAttr { pid, cmdline, status_name })
    }

    /// The name that the status text gave.
    pub fn status_name(&self) -> (r: &str)
        ensures
            r@ == self@.status_name,
    {
        self.status_name.as_str()
    }
}

fn parse_pid_str(s: &str) -> (r: Option<i32>)
    ensures
        r == parse_pid(s@),
{
    let t = chars_of(s);
    let n = t.len();
    let neg = n > 0 && t[0] == '-';
    let start: usize = if n > 0 && (t[0] == '+' || t[0] == '-') {
        1
    } else {
        0
    };
    let ghost d = t@.subrange(start as int, n as int);
    proof {
        if start == 1 {
            assert(d =~= t@.drop_first());
        } else {
            assert(d =~= t@);
        }
    }
    if start >= n {
        return None;
    }
    let limit: u64 = if neg {
        0x8000_0000
    } else {
        0x7fff_ffff
    };
    let mut acc: u64 = 0;
    let mut j: usize = start;
    let mut too_big = false;
    while j < n
        invariant
            start <= j <= n == t@.len(),
            t@ == s@,
            d == t@.subrange(start as int, n as int),
            d == sign_stripped(t@),
            neg == (t@.len() > 0 && t@[0] == '-'),
            limit == if neg {
                0x8000_0000u64
            } else {
                0x7fff_ffffu64
            },
            forall|i: int| 0 <= i < j - start ==> #[trigger] is_digit(d[i]),
            !too_big ==> acc == dec_value(d.take(j - start)) && acc <= limit,
            too_big ==> dec_value(d.take(j - start)) > limit,
        decreases n - j,
    {
        let c = t[j];
        let ghost pre = d.take(j - start);
        let ghost next = d.take(j - start + 1);
        proof {
            assert(next.drop_last() =~= pre);
            assert(next.last() == c);
        }
        if !('0' <= c && c <= '9') {
            assert(!is_digit(d[j - start]));
            assert(!all_digits(d));
            return None;
        }
        let v = (c as u32 - '0' as u32) as u64;
        if !too_big {
            if acc * 10 + v > limit {
                too_big = true;
            } else {
                acc = acc * 10 + v;
            }
        } else {
            proof {
                assert(dec_value(next) >= dec_value(pre)) by (nonlinear_arith)
                    requires
                        dec_value(next) == dec_value(pre) * 10 + (c as nat - '0' as nat),
                        c as nat >= '0' as nat,
                {
                }
            }
        }
        j = j + 1;
    }
    proof {
        assert(d.take(n - start) =~= d);
    }
    if too_big {
        None
    } else if neg {
        Some((0 - (acc as i64)) as i32)
    } else {
        Some(acc as i32)
    }
}

fn normalize_cmdline(raw: &str) -> (r: String)
    ensures
        r@ == cmdline_of(raw@),
{
    let t = chars_of(raw);
    let ghost m = raw@.map_values(|c: char| if c == '\0' { ' ' } else { c });
    let mut end: usize = t.len();
    proof {
        assert(m.subrange(0, end as int) =~= m);
    }
    while end > 0 && (t[end - 1] == '\0' || is_space_char(t[end - 1]))
        invariant
            end <= t@.len(),
            t@ == raw@,
            m == raw@.map_values(|c: char| if c == '\0' { ' ' } else { c }),
            cmdline_of(raw@) == strip_back(m.subrange(0, end as int)),
        decreases end,
    {
        proof {
            assert(m.subrange(0, end as int).drop_last() =~= m.subrange(0, end - 1));
        }
        end = end - 1;
    }
    let mut out = String::new();
    let mut i: usize = 0;
    while i < end
        invariant
            end <= t@.len(),
            t@ == raw@,
            i <= end,
            m == raw@.map_values(|c: char| if c == '\0' { ' ' } else { c }),
            out@ == m.subrange(0, i as int),
        decreases end - i,
    {
        let c = if t[i] == '\0' {
            ' '
        } else {
            t[i]
        };
        out.push(c);
        proof {
            assert(out@ =~= m.subrange(0, i + 1));
        }
        i = i + 1;
    }
    out
}

fn status_name_str(status: &str) -> (r: String)
    ensures
        r@ == status_name_of(first_line_of(status@)),
{
    let t = chars_of(status);
    let n = t.len();
    let mut e: usize = 0;
    while e < n && t[e] != '\n'
        invariant
            e <= n == t@.len(),
            forall|k: int| 0 <= k < e ==> t@[k] != '\n',
        decreases n - e,
    {
        e = e + 1;
    }
    proof {
        crate::address::lemma_index_of(t@, '\n', e as int);
    }
    let ghost line = t@.take(e as int);
    let mut p: usize = 0;
    while p < e && t[p] != ':'
        invariant
            p <= e <= n == t@.len(),
            forall|k: int| 0 <= k < p ==> t@[k] != ':',
        decreases e - p,
    {
        p = p + 1;
    }
    proof {
        assert forall|k: int| 0 <= k < p implies line[k] != ':' by {}
        crate::address::lemma_index_of(line, ':', p as int);
    }
    if p >= e {
        return String::new();
    }
    let mut lo: usize = p + 1;
    let mut hi: usize = e;
    proof {
        assert(status_name_of(line) == strip_ascii(t@.subrange(lo as int, hi as int))) by {
            assert(line.subrange(p + 1, line.len() as int) =~= t@.subrange(lo as int, hi as int));
        }
    }
    while lo < hi && (is_ascii_space_char(t[lo]) || is_ascii_space_char(t[hi - 1]))
        invariant
            p + 1 <= lo <= hi <= e <= n == t@.len(),
            status_name_of(line) == strip_ascii(t@.subrange(lo as int, hi as int)),
        decreases hi - lo,
    {
        let ghost s = t@.subrange(lo as int, hi as int);
        if is_ascii_space_char(t[lo]) {
            proof {
                assert(s.drop_first() =~= t@.subrange(lo + 1, hi as int));
            }
            lo = lo + 1;
        } else {
            proof {
                assert(s.drop_last() =~= t@.subrange(lo as int, hi - 1));
            }
            hi = hi - 1;
        }
    }
    let mut out = String::new();
    let mut i: usize = lo;
    while i < hi
        invariant
            lo <= i <= hi <= n == t@.len(),
            out@ == t@.subrange(lo as int, i as int),
        decreases hi - i,
    {
        out.push(t[i]);
        proof {
            assert(out@ =~= t@.subrange(lo as int, i + 1));
        }
        i = i + 1;
    }
    proof {
        let s = t@.subrange(lo as int, hi as int);
        assert(strip_ascii(s) == s);
    }
    out
}

fn is_ascii_space_char(c: char) -> (r: bool)
    ensures
        r == is_ascii_space(c),
{
    c == ' ' || c == '\t' || c == '\n' || c == '\x0c' || c == '\r'
}

/// Indices, in order, of the processes in `procs` that have a command line
/// and whose status name contains `input`.
pub fn matched_pids_if_name_contains(procs: &Vec<ProcessAttr>, input: &str) -> (r: Vec<usize>)
    ensures
        r@ == matching_indices(procs@.map_values(|a: ProcessAttr| a@), input@),
{
    let ghost views = procs@.map_values(|a: ProcessAttr| a@);
    let mut out: Vec<usize> = Vec::new();
    let mut i: usize = 0;
    while i < procs.len()
        invariant
            i <= procs@.len(),
            views == procs@.map_values(|a: ProcessAttr| a@),
            out@ == matching_indices(views.take(i as int), input@),
        decreases procs@.len() - i,
    {
        let a = &procs[i];
        let keep = a.cmdline.unicode_len() > 0 && contains_str(a.status_name.as_str(), input);
        proof {
            assert(views.take(i + 1).drop_last() =~= views.take(i as int));
            assert(views.take(i + 1).last() == a@);
        }
        if keep {
            out.push(i);
        }
        i = i + 1;
    }
    proof {
        assert(views.take(i as int) =~= views);
    }
    out
}

} // verus!
