//! After the game exits: which output lines are kept, the crash report
//! written when it exits abnormally, and which old reports are removed.
use vstd::prelude::*;
use crate::modrinth::strings_view;
use crate::paths::{components_spec, home_dir_text, join_path, minecraft_dir_in, minecraft_dir_spec, path_components, path_join};
use crate::text::{decimal, extend_chars, extend_str, has_substring, str_contains, string_from_chars, u64_decimal};

verus! {

// ------------------------------------------------------------------
// The last lines of an output stream
// ------------------------------------------------------------------

/// How many lines of the game's error output are kept.
pub const STDERR_CAP: usize = 500;

/// How many lines of the game's standard output are kept.
pub const STDOUT_CAP: usize = 100;

/// The last lines of a stream, at most `cap` of them, oldest first.
pub struct LineTail {
    lines: Vec<String>,
    cap: usize,
}

/// What a tail holds after `lines` were pushed in order into an empty
/// tail of capacity `cap`.
pub open spec fn tail_after(cap: nat, lines: Seq<Seq<char>>) -> Seq<Seq<char>>
    decreases lines.len(),
{
    if lines.len() == 0 {
        Seq::empty()
    } else {
        let before = tail_after(cap, lines.drop_last());
        if before.len() >= cap {
            before.drop_first().push(lines.last())
        } else {
            before.push(lines.last())
        }
    }
}

impl View for LineTail {
    type V = Seq<Seq<char>>;

    closed spec fn view(&self) -> Seq<Seq<char>> {
        strings_view(self.lines@)
    }
}

impl LineTail {
    #[verifier::type_invariant]
    spec fn well_formed(self) -> bool {
        0 < self.cap && self.lines.len() <= self.cap
    }

    pub closed spec fn capacity(self) -> nat {
        self.cap as nat
    }

    /// An empty tail keeping at most `cap` lines.
    pub fn new(cap: usize) -> (r: LineTail)
        requires
            cap > 0,
        ensures
            r@ == Seq::<Seq<char>>::empty(),
            r.capacity() == cap,
    {
        LineTail { lines: Vec::new(), cap }
    }

    /// Adds a line; when the tail is full the oldest line is dropped first.
    pub fn push(&mut self, line: String)
        ensures
            final(self).capacity() == old(self).capacity(),
            final(self)@ == if old(self)@.len() >= old(self).capacity() {
                old(self)@.drop_first().push(line@)
            } else {
                old(self)@.push(line@)
            },
    {
        proof {
            use_type_invariant(&*self);
        }
        let ghost before = self@;
        let mut lines = Vec::new();
        std::mem::swap(&mut lines, &mut self.lines);
        if lines.len() >= self.cap {
            let ghost l0 = lines@;
            lines.remove(0);
            assert(strings_view(lines@) =~= strings_view(l0).drop_first());
        }
        let ghost l1 = lines@;
        lines.push(line);
        assert(strings_view(lines@) =~= strings_view(l1).push(line@));
        self.lines = lines;
    }

    /// The kept lines, oldest first.
    pub fn lines(&self) -> (r: &Vec<String>)
        ensures
            strings_view(r@) == self@,
    {
        &self.lines
    }

    pub fn len(&self) -> (r: usize)
        ensures
            r == self@.len(),
            r <= self.capacity(),
    {
        proof {
            use_type_invariant(self);
        }
        self.lines.len()
    }

    pub fn is_empty(&self) -> (r: bool)
        ensures
            r == (self@.len() == 0),
    {
        self.lines.len() == 0
    }
}

/// A tail holds the last `cap` lines pushed into it (all of them while
/// fewer were pushed), in the order they came.
pub proof fn law_tail_keeps_last_lines(cap: nat, lines: Seq<Seq<char>>)
    requires
        cap > 0,
    ensures
        tail_after(cap, lines) == lines.subrange(
            if lines.len() > cap { lines.len() - cap } else { 0 },
            lines.len() as int,
        ),
    decreases lines.len(),
{
    if lines.len() > 0 {
        law_tail_keeps_last_lines(cap, lines.drop_last());
        let n = lines.len() as int;
        let before = tail_after(cap, lines.drop_last());
        if n - 1 > cap {
            assert(before.drop_first().push(lines.last()) =~= lines.subrange(n - cap, n));
        } else if n - 1 == cap {
            assert(before.drop_first().push(lines.last()) =~= lines.subrange(n - cap, n));
        } else {
            assert(before.push(lines.last()) =~= lines.subrange(0, n));
        }
    }
}

/// A line of the game's error output is reported as an error when it
/// mentions an exception, a fatal error, an error or a crash.
pub open spec fn is_error_line_spec(l: Seq<char>) -> bool {
    has_substring(l, "Exception"@) || has_substring(l, "FATAL"@) || has_substring(l, "ERROR"@)
        || has_substring(l, "crash"@)
}

pub fn is_error_line(l: &str) -> (r: bool)
    ensures
        r == is_error_line_spec(l@),
{
    str_contains(l, "Exception") || str_contains(l, "FATAL") || str_contains(l, "ERROR")
        || str_contains(l, "crash")
}

// ------------------------------------------------------------------
// Crash reports
// ------------------------------------------------------------------

/// How many crash reports are kept.
pub const MAX_CRASH_LOGS: usize = 20;

/// `<mc_dir>/crash_logs`.
pub fn crash_log_dir_in(mc_dir: &str) -> (r: String)
    ensures
        r@ == path_join(mc_dir@, "crash_logs"@),
{
    join_path(mc_dir, "crash_logs")
}

/// `~/.minecraft/crash_logs`; `None` when the home directory cannot be
/// determined.
pub fn crash_log_dir() -> (r: Option<String>)
    ensures
        r matches Some(d) ==> exists|h: Seq<char>| d@ == path_join(minecraft_dir_spec(h), "crash_logs"@),
{
    match home_dir_text() {
        Some(h) => {
            let mc = minecraft_dir_in(h.as_str());
            Some(crash_log_dir_in(mc.as_str()))
        },
        None => None,
    }
}

/// `<instance>-<seconds since the epoch>.log`.
pub fn crash_log_file_name(instance: &str, timestamp: u64) -> (r: String)
    ensures
        r@ == instance@ + seq!['-'] + decimal(timestamp as nat) + ".log"@,
{
    let mut m: Vec<char> = Vec::new();
    extend_str(&mut m, instance);
    m.push('-');
    let d = u64_decimal(timestamp);
    extend_chars(&mut m, d.as_slice());
    extend_str(&mut m, ".log");
    string_from_chars(m.as_slice())
}

/// The lines of a crash report: a header with the instance, the exit
/// status and the time, then the kept error lines and the kept output
/// lines, each group under a title that counts it and left out when empty.
pub open spec fn crash_report_spec(
    instance: Seq<char>,
    status: Seq<char>,
    timestamp: u64,
    stderr: Seq<Seq<char>>,
    stdout: Seq<Seq<char>>,
) -> Seq<Seq<char>> {
    seq![
        "=== Crash Report ==="@,
        "Instance: "@ + instance,
        "Exit code: "@ + status,
        "Timestamp: "@ + decimal(timestamp as nat),
        Seq::<char>::empty(),
    ] + (if stderr.len() > 0 {
        seq!["--- Last "@ + decimal(stderr.len()) + " stderr lines ---"@] + stderr
    } else {
        Seq::empty()
    }) + (if stdout.len() > 0 {
        seq![Seq::<char>::empty(), "--- Last "@ + decimal(stdout.len()) + " stdout lines ---"@] + stdout
    } else {
        Seq::empty()
    })
}

/// The report is five header lines, then the kept error lines under
/// their title when there are any, then, whenever output lines were kept
/// (whatever the error lines are), a blank line, their title and every
/// one of them, last.
pub proof fn law_crash_report_layout(
    instance: Seq<char>,
    status: Seq<char>,
    timestamp: u64,
    stderr: Seq<Seq<char>>,
    stdout: Seq<Seq<char>>,
)
    ensures
        ({
            let r = crash_report_spec(instance, status, timestamp, stderr, stdout);
            let e: int = if stderr.len() > 0 { stderr.len() + 1int } else { 0int };
            &&& r.len() == 5 + e + (if stdout.len() > 0 { stdout.len() + 2int } else { 0int })
            &&& r[0] == "=== Crash Report ==="@
            &&& r[1] == "Instance: "@ + instance
            &&& r[2] == "Exit code: "@ + status
            &&& r[3] == "Timestamp: "@ + decimal(timestamp as nat)
            &&& r[4] == Seq::<char>::empty()
            &&& (stderr.len() > 0 ==> {
                &&& r[5] == "--- Last "@ + decimal(stderr.len()) + " stderr lines ---"@
                &&& r.subrange(6, 6 + stderr.len() as int) == stderr
            })
            &&& (stdout.len() > 0 ==> {
                &&& r[5 + e] == Seq::<char>::empty()
                &&& r[6 + e] == "--- Last "@ + decimal(stdout.len()) + " stdout lines ---"@
                &&& r.subrange(r.len() - stdout.len() as int, r.len() as int) == stdout
            })
        }),
{
    let r = crash_report_spec(instance, status, timestamp, stderr, stdout);
    let e: int = if stderr.len() > 0 { stderr.len() + 1int } else { 0int };
    if stderr.len() > 0 {
        assert(r.subrange(6, 6 + stderr.len() as int) =~= stderr);
    }
    if stdout.len() > 0 {
        assert(r.subrange(r.len() - stdout.len() as int, r.len() as int) =~= stdout);
    }
}

fn text_of(parts: &Vec<char>) -> (r: String)
    ensures
        r@ == parts@,
{
    string_from_chars(parts.as_slice())
}

fn push_line(v: &mut Vec<String>, s: String)
    ensures
        strings_view(final(v)@) == strings_view(old(v)@).push(s@),
{
    let ghost prev = v@;
    v.push(s);
    assert(strings_view(v@) =~= strings_view(prev).push(s@));
}

fn push_all(v: &mut Vec<String>, lines: &Vec<String>)
    ensures
        strings_view(final(v)@) == strings_view(old(v)@) + strings_view(lines@),
{
    let ghost start = strings_view(v@);
    let mut i: usize = 0;
    while i < lines.len()
        invariant
            i <= lines.len(),
            strings_view(v@) == start + strings_view(lines@).take(i as int),
        decreases lines.len() - i,
    {
        push_line(v, lines[i].clone());
        assert(strings_view(lines@).take(i + 1) =~= strings_view(lines@).take(i as int).push(lines@[i as int]@));
        i += 1;
    }
    assert(strings_view(lines@).take(lines.len() as int) =~= strings_view(lines@));
}

fn counted_title(n: usize, rest: &str) -> (r: String)
    ensures
        r@ == "--- Last "@ + decimal(n as nat) + rest@,
{
    let mut m: Vec<char> = Vec::new();
    extend_str(&mut m, "--- Last ");
    let d = u64_decimal(n as u64);
    extend_chars(&mut m, d.as_slice());
    extend_str(&mut m, rest);
    text_of(&m)
}

/// The lines of the crash report (see `crash_report_spec`); `status` is
/// the exit status as the system describes it.
pub fn crash_report_lines(
    instance: &str,
    status: &str,
    timestamp: u64,
    stderr: &Vec<String>,
    stdout: &Vec<String>,
) -> (r: Vec<String>)
    ensures
        strings_view(r@) == crash_report_spec(instance@, status@, timestamp, strings_view(stderr@), strings_view(stdout@)),
{
    let mut r: Vec<String> = Vec::new();
    push_line(&mut r, String::from_str("=== Crash Report ==="));
    let mut a: Vec<char> = Vec::new();
    extend_str(&mut a, "Instance: ");
    extend_str(&mut a, instance);
    push_line(&mut r, text_of(&a));
    let mut b: Vec<char> = Vec::new();
    extend_str(&mut b, "Exit code: ");
    extend_str(&mut b, status);
    push_line(&mut r, text_of(&b));
    let mut c: Vec<char> = Vec::new();
    extend_str(&mut c, "Timestamp: ");
    let d = u64_decimal(timestamp);
    extend_chars(&mut c, d.as_slice());
    push_line(&mut r, text_of(&c));
    push_line(&mut r, String::new());
    let ghost head = strings_view(r@);
    assert(head =~= seq![
        "=== Crash Report ==="@,
        "Instance: "@ + instance@,
        "Exit code: "@ + status@,
        "Timestamp: "@ + decimal(timestamp as nat),
        Seq::<char>::empty(),
    ]);
    if stderr.len() > 0 {
        let t = counted_title(stderr.len(), " stderr lines ---");
        push_line(&mut r, t);
        push_all(&mut r, stderr);
    }
    let ghost mid = strings_view(r@);
    assert(mid =~= head + (if stderr.len() > 0 {
        seq!["--- Last "@ + decimal(stderr.len() as nat) + " stderr lines ---"@] + strings_view(stderr@)
    } else {
        Seq::empty()
    }));
    if stdout.len() > 0 {
        push_line(&mut r, String::new());
        let t = counted_title(stdout.len(), " stdout lines ---");
        push_line(&mut r, t);
        push_all(&mut r, stdout);
    }
    assert(strings_view(r@) =~= crash_report_spec(instance@, status@, timestamp, strings_view(stderr@), strings_view(stdout@)));
    r
}

/// The last component of a path when it is a name (not the root, `.` or
/// `..`), as `Path::file_name` gives it.
pub open spec fn file_name_spec(p: Seq<char>) -> Option<Seq<char>> {
    let c = components_spec(p);
    if c.len() > 0 && c.last() != seq!['/'] && c.last() != seq!['.'] && c.last() != seq!['.', '.'] {
        Some(c.last())
    } else {
        None
    }
}

/// The name a crash report is filed under: the game directory's name, or
/// `unknown`.
pub fn instance_name_of(game_path: &str) -> (r: String)
    ensures
        r@ == match file_name_spec(game_path@) {
            Some(n) => n,
            None => "unknown"@,
        },
{
    let c = path_components(game_path);
    let ghost cv = c@.map_values(|q: Vec<char>| q@);
    if c.len() > 0 {
        let last = &c[c.len() - 1];
        assert(cv.last() == last@);
        let is_root = last.len() == 1 && last[0] == '/';
        let is_cur = last.len() == 1 && last[0] == '.';
        let is_parent = last.len() == 2 && last[0] == '.' && last[1] == '.';
        assert(is_root == (last@ == seq!['/'])) by {
            if last@.len() == 1 && last@[0] == '/' {
                assert(last@ =~= seq!['/']);
            }
        }
        assert(is_cur == (last@ == seq!['.'])) by {
            if last@.len() == 1 && last@[0] == '.' {
                assert(last@ =~= seq!['.']);
            }
        }
        assert(is_parent == (last@ == seq!['.', '.'])) by {
            if last@.len() == 2 && last@[0] == '.' && last@[1] == '.' {
                assert(last@ =~= seq!['.', '.']);
            }
        }
        if !is_root && !is_cur && !is_parent {
            return string_from_chars(last.as_slice());
        }
    }
    String::from_str("unknown")
}

// ------------------------------------------------------------------
// Removing old crash reports
// ------------------------------------------------------------------

/// Modification times compare as `Option` does: an unknown time first,
/// then known times in order (nanoseconds since the epoch, negative
/// before it).
pub open spec fn time_before(a: Option<i128>, b: Option<i128>) -> bool {
    match (a, b) {
        (None, Some(_)) => true,
        (Some(x), Some(y)) => x < y,
        _ => false,
    }
}

/// Entry `a` comes before entry `b` once the entries are sorted by time,
/// equal times keeping the listing's order.
pub open spec fn sorts_before(times: Seq<Option<i128>>, a: int, b: int) -> bool {
    time_before(times[a], times[b]) || (times[a] == times[b] && a < b)
}

/// `s` lists distinct entries of `times` in sorted order.
pub open spec fn sorted_entries(times: Seq<Option<i128>>, s: Seq<usize>) -> bool {
    &&& forall|i: int| 0 <= i < s.len() ==> #[trigger] s[i] < times.len()
    &&& forall|i: int, j: int| 0 <= i < j < s.len() ==> sorts_before(times, #[trigger] s[i] as int, #[trigger] s[j] as int)
}

fn time_before_exec(a: Option<i128>, b: Option<i128>) -> (r: bool)
    ensures
        r == time_before(a, b),
{
    match (a, b) {
        (None, Some(_)) => true,
        (Some(x), Some(y)) => x < y,
        _ => false,
    }
}

/// The entries in sorted order: a stable sort by time.
fn sort_by_time(times: &Vec<Option<i128>>) -> (r: Vec<usize>)
    ensures
        r.len() == times.len(),
        sorted_entries(times@, r@),
        forall|k: usize| k < times.len() ==> #[trigger] r@.contains(k),
{
    let mut r: Vec<usize> = Vec::new();
    let mut i: usize = 0;
    while i < times.len()
        invariant
            i <= times.len(),
            r.len() == i,
            forall|j: int| 0 <= j < r.len() ==> #[trigger] r@[j] < i,
            sorted_entries(times@, r@),
            forall|k: usize| k < i ==> #[trigger] r@.contains(k),
        decreases times.len() - i,
    {
        // the place of entry i: after every entry not later than it
        let mut pos: usize = 0;
        while pos < r.len() && !time_before_exec(times[i], times[r[pos]])
            invariant
                pos <= r.len(),
                r.len() == i,
                i < times.len(),
                forall|j: int| 0 <= j < r.len() ==> #[trigger] r@[j] < i,
                forall|j: int| 0 <= j < pos ==> !time_before(times@[i as int], times@[#[trigger] r@[j] as int]),
            decreases r.len() - pos,
        {
            pos += 1;
        }
        let ghost old_r = r@;
        proof {
            assert forall|j: int| pos <= j < old_r.len() implies time_before(times@[i as int], times@[#[trigger] old_r[j] as int]) by {
                if j > pos {
                    assert(sorts_before(times@, old_r[pos as int] as int, old_r[j] as int));
                }
            }
        }
        r.insert(pos, i);
        proof {
            assert(r@ == old_r.insert(pos as int, i));
            assert forall|a: int, b: int| 0 <= a < b < r.len() implies sorts_before(times@, #[trigger] r@[a] as int, #[trigger] r@[b] as int) by {
                if b < pos {
                    assert(r@[a] == old_r[a] && r@[b] == old_r[b]);
                } else if b == pos {
                    assert(r@[a] == old_r[a]);
                    assert(old_r[a] < i);
                } else if a < pos {
                    assert(r@[a] == old_r[a] && r@[b] == old_r[b - 1]);
                    assert(sorts_before(times@, old_r[a] as int, old_r[b - 1] as int));
                } else if a == pos {
                    assert(r@[b] == old_r[b - 1]);
                } else {
                    assert(r@[a] == old_r[a - 1] && r@[b] == old_r[b - 1]);
                    assert(sorts_before(times@, old_r[a - 1] as int, old_r[b - 1] as int));
                }
            }
            assert forall|j: int| 0 <= j < r.len() implies #[trigger] r@[j] < i + 1 by {
                if j < pos {
                    assert(r@[j] == old_r[j]);
                } else if j > pos {
                    assert(r@[j] == old_r[j - 1]);
                }
            }
            assert forall|k: usize| k < i + 1 implies #[trigger] r@.contains(k) by {
                if k == i {
                    assert(r@[pos as int] == i);
                } else {
                    assert(old_r.contains(k));
                    let w = choose|w: int| 0 <= w < old_r.len() && old_r[w] == k;
                    if w < pos {
                        assert(r@[w] == k);
                    } else {
                        assert(r@[w + 1] == k);
                    }
                }
            }
        }
        i += 1;
    }
    r
}

/// The reports to remove so that `MAX_CRASH_LOGS` are left: the oldest
/// ones, by modification time, equal times in listing order; `times`
/// holds each report's time in the order the directory listed them.
pub open spec fn prune_spec(times: Seq<Option<i128>>, r: Seq<usize>) -> bool {
    let excess = if times.len() > MAX_CRASH_LOGS { times.len() - MAX_CRASH_LOGS } else { 0 };
    &&& r.len() == excess
    &&& sorted_entries(times, r)
    &&& forall|k: int, i: int|
        0 <= k < times.len() && !r.contains(k as usize) && 0 <= i < r.len() ==> #[trigger] sorts_before(
            times,
            r[i] as int,
            k,
        )
}

/// Which crash reports are removed (see `prune_spec`), oldest first.
pub fn logs_to_prune(times: &Vec<Option<i128>>) -> (r: Vec<usize>)
    ensures
        prune_spec(times@, r@),
{
    if times.len() <= MAX_CRASH_LOGS {
        return Vec::new();
    }
    let sorted = sort_by_time(times);
    let excess = times.len() - MAX_CRASH_LOGS;
    let mut r: Vec<usize> = Vec::new();
    let mut i: usize = 0;
    while i < excess
        invariant
            i <= excess,
            excess <= sorted.len(),
            r@ == sorted@.take(i as int),
        decreases excess - i,
    {
        r.push(sorted[i]);
        assert(sorted@.take(i + 1) =~= sorted@.take(i as int).push(sorted@[i as int]));
        i += 1;
    }
    proof {
        assert forall|k: int, j: int|
            0 <= k < times.len() && !r@.contains(k as usize) && 0 <= j < r.len() implies #[trigger] sorts_before(
            times@,
            r@[j] as int,
            k,
        ) by {
            assert(sorted@.contains(k as usize));
            let w = choose|w: int| 0 <= w < sorted.len() && sorted@[w] == k as usize;
            if w < excess {
                assert(r@[w] == k as usize);
            }
            assert(r@[j] == sorted@[j]);
            assert(sorts_before(times@, sorted@[j] as int, sorted@[w] as int));
        }
    }
    r
}

} // verus!
