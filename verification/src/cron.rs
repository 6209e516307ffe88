//! The auto-update cron job: where the crontab file lives, the managed block that
//! holds the update entry, and how that block is merged into, found in and stripped
//! from an existing crontab.
use vstd::prelude::*;

use crate::text::{
    chars_eq, chars_of, contains, contains_chars, decimal, digit_char, join_path, join_with_newlines, lines_of,
    path_join, push_all, push_decimal, split_lines, string_from_chars, sub_vec, join_lines, trim,
    trim_chars, trim_end, trim_end_chars, split_nl, strip_cr, lowercase, to_lowercase,
};

verus! {

broadcast use vstd::string::group_string_axioms;

/// First line of the block that this tool manages in the user's crontab.
pub const MIHORO_CRON_START_MARKER: &'static str = "# >>> mihoro auto-update >>>";

/// Last line of the managed block.
pub const MIHORO_CRON_END_MARKER: &'static str = "# <<< mihoro auto-update <<<";

/// Largest timestamp `format_datetime` accepts: chrono's last representable day,
/// less one day of room for the local offset.
pub const MAX_FORMATTABLE_SECS: u64 = 8_210_266_790_399u64;

/// Last timestamp whose local date still has a four-digit year under any offset.
pub const MAX_FOUR_DIGIT_YEAR_SECS: u64 = 253_402_214_399u64;

pub open spec fn start_marker() -> Seq<char> {
    MIHORO_CRON_START_MARKER@
}

pub open spec fn end_marker() -> Seq<char> {
    MIHORO_CRON_END_MARKER@
}

/// Errors of the crontab logic.
#[derive(Debug, PartialEq, Eq)]
pub enum CronError {
    /// The configured interval lies outside 1..=24 hours.
    IntervalOutOfRange,
    /// `crontab -l` failed for another reason than a missing crontab; holds its
    /// trimmed error output.
    ListFailed(String),
}

impl CronError {
    /// The message the command line shows for this error.
    pub fn message(&self) -> (m: String)
        ensures
            m@ == (match self {
                CronError::IntervalOutOfRange => "Auto-update interval must be between 1 and 24 hours"@,
                CronError::ListFailed(e) => "Failed to list current crontab: "@ + e@,
            }),
    {
        match self {
            CronError::IntervalOutOfRange => "Auto-update interval must be between 1 and 24 hours".to_string(),
            CronError::ListFailed(e) => {
                let mut m = "Failed to list current crontab: ".to_string();
                m.append(e.as_str());
                m
            },
        }
    }
}

/// What enabling auto-update with a given interval amounts to.
#[derive(Debug, Clone, Copy, PartialEq, Eq)]
pub enum AutoUpdateDecision {
    /// An interval of zero turns auto-update off.
    Disable,
    /// Install the managed block with this interval.
    Enable(u16),
}

// ---------------------------------------------------------------------------
// Specifications
// ---------------------------------------------------------------------------

/// The directory that holds the generated crontab file.
pub open spec fn runtime_root_spec(
    os: Seq<char>,
    xdg_runtime_dir: Option<Seq<char>>,
    tmpdir: Option<Seq<char>>,
    fallback_uid: u32,
) -> Seq<char> {
    if os == "macos"@ {
        match tmpdir {
            Some(t) if t.len() > 0 => t,
            _ => "/tmp"@,
        }
    } else {
        match xdg_runtime_dir {
            Some(x) if x.len() > 0 => x,
            _ => "/run/user/"@ + decimal(fallback_uid as nat),
        }
    }
}

/// The cron entry that runs the update every `interval_hours` hours.
pub open spec fn cron_line_spec(interval_hours: u16, bin_path: Seq<char>) -> Seq<char> {
    "0 */"@ + decimal(interval_hours as nat) + " * * * "@ + bin_path + " update"@
}

/// A block holding `line`: start marker, `line`, end marker, each on its own line.
pub open spec fn block_spec(line: Seq<char>) -> Seq<char> {
    start_marker() + seq!['\n'] + line + seq!['\n'] + end_marker() + seq!['\n']
}

/// The managed block: start marker, cron entry, end marker, each on its own line.
pub open spec fn managed_block_spec(interval_hours: u16, bin_path: Seq<char>) -> Seq<char> {
    block_spec(cron_line_spec(interval_hours, bin_path))
}

/// The first index `k >= j` of a line that trims to the end marker, or `ls.len()`.
pub open spec fn first_end_from(ls: Seq<Seq<char>>, j: int) -> int
    decreases ls.len() - j,
{
    if j >= ls.len() {
        ls.len() as int
    } else if trim(ls[j]) == end_marker() {
        j
    } else {
        first_end_from(ls, j + 1)
    }
}

/// Removing the managed blocks from the lines at index `i` on.  A line that trims
/// to the start marker opens a block that ends at the next line that trims to the
/// end marker; a start marker with no end marker after it is kept as it is.
/// The flag tells whether any block was removed.
pub open spec fn strip_from(ls: Seq<Seq<char>>, i: int) -> (Seq<Seq<char>>, bool)
    decreases ls.len() - i,
{
    if i >= ls.len() || i < 0 {
        (Seq::<Seq<char>>::empty(), false)
    } else {
        proof {
            lemma_first_end_from_bounds(ls, i + 1);
        }
        if trim(ls[i]) == start_marker() && first_end_from(ls, i + 1) < ls.len() {
            (strip_from(ls, first_end_from(ls, i + 1) + 1).0, true)
        } else {
            let r = strip_from(ls, i + 1);
            (seq![ls[i]] + r.0, r.1)
        }
    }
}

/// The crontab text without its managed blocks (lines joined by `'\n'`, with a
/// final newline unless nothing is left), and whether a block was removed.
pub open spec fn strip_block_spec(content: Seq<char>) -> (Seq<char>, bool) {
    let r = strip_from(lines_of(content), 0);
    let joined = join_lines(r.0);
    (
        if joined.len() > 0 {
            joined.push('\n')
        } else {
            joined
        },
        r.1,
    )
}

/// The crontab with its managed blocks replaced by `managed_block`: the remaining
/// text without trailing whitespace, a blank line, then the block.
pub open spec fn merge_spec(existing: Seq<char>, managed_block: Seq<char>) -> Seq<char> {
    let kept = trim_end(strip_block_spec(existing).0);
    if kept.len() == 0 {
        managed_block
    } else {
        kept + "\n\n"@ + managed_block
    }
}

/// The first index `k >= j` of a line that is not blank, or `ls.len()`.
pub open spec fn first_nonblank_from(ls: Seq<Seq<char>>, j: int) -> int
    decreases ls.len() - j,
{
    if j >= ls.len() {
        ls.len() as int
    } else if trim(ls[j]).len() > 0 {
        j
    } else {
        first_nonblank_from(ls, j + 1)
    }
}

/// The entry of the first managed block that has one, from line `i` on: the first
/// non-blank line after a start marker, trimmed, unless that line is an end marker.
pub open spec fn find_from(ls: Seq<Seq<char>>, i: int) -> Option<Seq<char>>
    decreases ls.len() - i,
{
    if i >= ls.len() || i < 0 {
        None
    } else if trim(ls[i]) != start_marker() {
        find_from(ls, i + 1)
    } else {
        proof {
            lemma_first_nonblank_from_bounds(ls, i + 1);
        }
        let k = first_nonblank_from(ls, i + 1);
        if k >= ls.len() {
            None
        } else if trim(ls[k]) == end_marker() {
            find_from(ls, k + 1)
        } else {
            Some(trim(ls[k]))
        }
    }
}

/// The cron entry of the managed block in a crontab text, if any.
pub open spec fn find_entry_spec(content: Seq<char>) -> Option<Seq<char>> {
    find_from(lines_of(content), 0)
}

/// The shape of `"%Y-%m-%d %H:%M:%S"` for a four-digit year.
pub open spec fn is_datetime_shape(s: Seq<char>) -> bool {
    &&& s.len() == 19
    &&& s[4] == '-' && s[7] == '-' && s[10] == ' ' && s[13] == ':' && s[16] == ':'
    &&& forall|i: int|
        0 <= i < 19 && i != 4 && i != 7 && i != 10 && i != 13 && i != 16 ==> '0' <= #[trigger] s[i]
            <= '9'
}

/// Two decimal digits, `%m`, `%d`, `%H`, `%M` and `%S` style (`n < 100`).
pub open spec fn pad2(n: int) -> Seq<char> {
    seq![digit_char((n / 10) as nat), digit_char((n % 10) as nat)]
}

/// Four decimal digits (`n < 10000`).
pub open spec fn pad4(n: int) -> Seq<char> {
    seq![
        digit_char((n / 1000) as nat),
        digit_char((n / 100 % 10) as nat),
        digit_char((n / 10 % 10) as nat),
        digit_char((n % 10) as nat),
    ]
}

/// `%Y`: four digits for the years 0 to 9999, otherwise the year with its sign.
pub open spec fn year_text(y: int) -> Seq<char> {
    if 0 <= y <= 9999 {
        pad4(y)
    } else if y > 9999 {
        seq!['+'] + decimal(y as nat)
    } else if -y <= 9999 {
        seq!['-'] + pad4(-y)
    } else {
        seq!['-'] + decimal((-y) as nat)
    }
}

/// The proleptic Gregorian date `(year, month, day)` of a count of days since
/// 1970-01-01 (negative before it), by the usual era-of-400-years computation.
pub open spec fn civil_from_days(days: int) -> (int, int, int) {
    let z = days + 719468;
    let era = z / 146097;
    let doe = z - era * 146097;
    let yoe = (doe - doe / 1460 + doe / 36524 - doe / 146096) / 365;
    let doy = doe - (365 * yoe + yoe / 4 - yoe / 100);
    let mp = (5 * doy + 2) / 153;
    let d = doy - (153 * mp + 2) / 5 + 1;
    let m = if mp < 10 {
        mp + 3
    } else {
        mp - 9
    };
    let y = yoe + era * 400 + if m <= 2 {
        1int
    } else {
        0int
    };
    (y, m, d)
}

/// `"%Y-%m-%d %H:%M:%S"` of the wall-clock time `t` seconds after 1970-01-01 00:00:00.
pub open spec fn datetime_text(t: int) -> Seq<char> {
    let days = t / 86400;
    let rem = t % 86400;
    let (y, m, d) = civil_from_days(days);
    year_text(y) + seq!['-'] + pad2(m) + seq!['-'] + pad2(d) + seq![' '] + pad2(rem / 3600)
        + seq![':'] + pad2(rem % 3600 / 60) + seq![':'] + pad2(rem % 60)
}

/// `s` is the local rendering of the instant `secs` under some UTC offset of less
/// than a day, as every time zone has.
pub open spec fn local_datetime_of(secs: int, s: Seq<char>) -> bool {
    exists|o: int| -86400 < o < 86400 && s == #[trigger] datetime_text(secs + o)
}

// ---------------------------------------------------------------------------
// Lemmas about the specifications
// ---------------------------------------------------------------------------

pub proof fn lemma_first_end_from_bounds(ls: Seq<Seq<char>>, j: int)
    ensures
        j <= ls.len() ==> j <= first_end_from(ls, j) <= ls.len(),
        j > ls.len() ==> first_end_from(ls, j) == ls.len(),
        first_end_from(ls, j) < ls.len() ==> trim(ls[first_end_from(ls, j)]) == end_marker(),
    decreases ls.len() - j,
{
    if j < ls.len() && trim(ls[j]) != end_marker() {
        lemma_first_end_from_bounds(ls, j + 1);
    }
}

pub proof fn lemma_first_nonblank_from_bounds(ls: Seq<Seq<char>>, j: int)
    ensures
        j <= ls.len() ==> j <= first_nonblank_from(ls, j) <= ls.len(),
        j > ls.len() ==> first_nonblank_from(ls, j) == ls.len(),
    decreases ls.len() - j,
{
    if j < ls.len() && trim(ls[j]).len() == 0 {
        lemma_first_nonblank_from_bounds(ls, j + 1);
    }
}

// ---------------------------------------------------------------------------
// Executable functions
// ---------------------------------------------------------------------------

fn optional_chars(v: Option<&str>) -> (r: Option<Vec<char>>)
    ensures
        r matches Some(x) <==> v matches Some(_),
        r matches Some(x) ==> x@ == v->0@,
{
    match v {
        Some(s) => Some(chars_of(s)),
        None => None,
    }
}

/// The directory that holds the generated crontab file: on macOS `$TMPDIR` (or
/// `/tmp`), elsewhere `$XDG_RUNTIME_DIR` (or `/run/user/<uid>`, with the uid of the
/// owner of the working directory).  Unset and empty values count alike.
pub fn resolve_runtime_root(
    os: &str,
    xdg_runtime_dir: Option<&str>,
    tmpdir: Option<&str>,
    fallback_uid: u32,
) -> (root: String)
    ensures
        root@ == runtime_root_spec(
            os@,
            match xdg_runtime_dir {
                Some(x) => Some(x@),
                None => None,
            },
            match tmpdir {
                Some(t) => Some(t@),
                None => None,
            },
            fallback_uid,
        ),
{
    let os_chars = chars_of(os);
    let macos = chars_of("macos");
    if chars_eq(&os_chars, &macos) {
        match tmpdir {
            Some(t) => {
                if t.unicode_len() > 0 {
                    return t.to_string();
                }
            },
            None => {},
        }
        "/tmp".to_string()
    } else {
        match xdg_runtime_dir {
            Some(x) => {
                if x.unicode_len() > 0 {
                    return x.to_string();
                }
            },
            None => {},
        }
        let mut r = chars_of("/run/user/");
        push_decimal(&mut r, fallback_uid as u64);
        string_from_chars(&r)
    }
}

/// The crontab file this tool writes before installing it with `crontab`.
pub fn crontab_path(
    os: &str,
    xdg_runtime_dir: Option<&str>,
    tmpdir: Option<&str>,
    fallback_uid: u32,
) -> (path: String)
    ensures
        path@ == path_join(
            runtime_root_spec(
                os@,
                match xdg_runtime_dir {
                    Some(x) => Some(x@),
                    None => None,
                },
                match tmpdir {
                    Some(t) => Some(t@),
                    None => None,
                },
                fallback_uid,
            ),
            "mihoro-crontab"@,
        ),
{
    let root = resolve_runtime_root(os, xdg_runtime_dir, tmpdir, fallback_uid);
    let joined = join_path(&chars_of(root.as_str()), &chars_of("mihoro-crontab"));
    string_from_chars(&joined)
}

fn cron_line_chars(interval_hours: u16, bin_path: &str) -> (r: Vec<char>)
    ensures
        r@ == cron_line_spec(interval_hours, bin_path@),
{
    let mut r = chars_of("0 */");
    push_decimal(&mut r, interval_hours as u64);
    push_all(&mut r, &chars_of(" * * * "));
    push_all(&mut r, &chars_of(bin_path));
    push_all(&mut r, &chars_of(" update"));
    r
}

/// The cron entry `0 */<interval> * * * <bin_path> update`.
pub fn generate_cron_line(interval_hours: u16, bin_path: &str) -> (line: String)
    ensures
        line@ == cron_line_spec(interval_hours, bin_path@),
{
    string_from_chars(&cron_line_chars(interval_hours, bin_path))
}

/// The managed block: start marker, cron entry and end marker, each ended by a newline.
pub fn generate_managed_block(interval_hours: u16, bin_path: &str) -> (block: String)
    ensures
        block@ == managed_block_spec(interval_hours, bin_path@),
{
    let mut r = chars_of(MIHORO_CRON_START_MARKER);
    r.push('\n');
    push_all(&mut r, &cron_line_chars(interval_hours, bin_path));
    r.push('\n');
    push_all(&mut r, &chars_of(MIHORO_CRON_END_MARKER));
    r.push('\n');
    string_from_chars(&r)
}

/// What enabling auto-update does for an interval: zero disables it, 1 to 24 hours
/// installs the entry, anything longer is refused.
pub fn auto_update_decision(interval_hours: u16) -> (d: Result<AutoUpdateDecision, CronError>)
    ensures
        interval_hours == 0 ==> d == Ok::<AutoUpdateDecision, CronError>(
            AutoUpdateDecision::Disable,
        ),
        1 <= interval_hours <= 24 ==> d == Ok::<AutoUpdateDecision, CronError>(
            AutoUpdateDecision::Enable(interval_hours),
        ),
        interval_hours > 24 ==> d == Err::<AutoUpdateDecision, CronError>(
            CronError::IntervalOutOfRange,
        ),
{
    if interval_hours == 0 {
        Ok(AutoUpdateDecision::Disable)
    } else if interval_hours > 24 {
        Err(CronError::IntervalOutOfRange)
    } else {
        Ok(AutoUpdateDecision::Enable(interval_hours))
    }
}

/// The current crontab from the outcome of `crontab -l`: its output on success,
/// an empty crontab when the lower-cased error output says there is none, and
/// otherwise an error that holds the lower-cased error output, trimmed.
pub fn interpret_crontab_listing(success: bool, stdout: &str, stderr: &str) -> (r: Result<
    String,
    CronError,
>)
    ensures
        success ==> (r matches Ok(s) && s@ == stdout@),
        !success && (contains(lowercase(stderr@), "no crontab for"@) || contains(
            lowercase(stderr@),
            "does not exist"@,
        )) ==> (r matches Ok(s) && s@.len() == 0),
        !success && !(contains(lowercase(stderr@), "no crontab for"@) || contains(
            lowercase(stderr@),
            "does not exist"@,
        )) ==> (r matches Err(CronError::ListFailed(e)) && e@ == trim(lowercase(stderr@))),
{
    if success {
        return Ok(stdout.to_string());
    }
    let lower = to_lowercase(stderr);
    let text = chars_of(lower.as_str());
    if contains_chars(&text, &chars_of("no crontab for")) || contains_chars(
        &text,
        &chars_of("does not exist"),
    ) {
        return Ok(String::new());
    }
    let trimmed = trim_chars(&text);
    Err(CronError::ListFailed(string_from_chars(&trimmed)))
}

fn lines_eq_marker(line: &Vec<char>, marker: &Vec<char>) -> (r: bool)
    ensures
        r == (trim(line@) == marker@),
{
    chars_eq(&trim_chars(line), marker)
}

proof fn lemma_deep_view_index(ls: &Vec<Vec<char>>, k: int)
    requires
        0 <= k < ls.len(),
    ensures
        ls.deep_view()[k] == ls@[k]@,
{
    assert(ls@[k].deep_view() =~= ls@[k]@);
}

fn first_end_index(lines: &Vec<Vec<char>>, from: usize, end: &Vec<char>) -> (k: usize)
    requires
        from <= lines.len(),
        end@ == end_marker(),
    ensures
        k as int == first_end_from(lines.deep_view(), from as int),
{
    let mut k = from;
    while k < lines.len() && !lines_eq_marker(&lines[k], end)
        invariant
            from <= k <= lines.len(),
            end@ == end_marker(),
            first_end_from(lines.deep_view(), from as int) == first_end_from(
                lines.deep_view(),
                k as int,
            ),
        decreases lines.len() - k,
    {
        proof {
            lemma_deep_view_index(lines, k as int);
        }
        k = k + 1;
    }
    if k < lines.len() {
        proof {
            lemma_deep_view_index(lines, k as int);
        }
    }
    k
}

fn first_nonblank_index(lines: &Vec<Vec<char>>, from: usize) -> (k: usize)
    requires
        from <= lines.len(),
    ensures
        k as int == first_nonblank_from(lines.deep_view(), from as int),
{
    let mut k = from;
    while k < lines.len() && trim_chars(&lines[k]).len() == 0
        invariant
            from <= k <= lines.len(),
            first_nonblank_from(lines.deep_view(), from as int) == first_nonblank_from(
                lines.deep_view(),
                k as int,
            ),
        decreases lines.len() - k,
    {
        proof {
            lemma_deep_view_index(lines, k as int);
        }
        k = k + 1;
    }
    if k < lines.len() {
        proof {
            lemma_deep_view_index(lines, k as int);
        }
    }
    k
}

/// Removes every managed block from a crontab text; tells whether one was found.
pub fn strip_mihoro_block(content: &str) -> (r: (String, bool))
    ensures
        r.0@ == strip_block_spec(content@).0,
        r.1 == strip_block_spec(content@).1,
{
    let text = chars_of(content);
    let lines = split_lines(&text);
    let ghost ls = lines.deep_view();
    let start = chars_of(MIHORO_CRON_START_MARKER);
    let end = chars_of(MIHORO_CRON_END_MARKER);
    let mut cleaned: Vec<Vec<char>> = Vec::new();
    let mut index: usize = 0;
    let mut removed = false;
    while index < lines.len()
        invariant
            ls == lines.deep_view(),
            ls == lines_of(content@),
            index <= lines.len(),
            start@ == start_marker(),
            end@ == end_marker(),
            strip_from(ls, 0).0 == cleaned.deep_view() + strip_from(ls, index as int).0,
            strip_from(ls, 0).1 == (removed || strip_from(ls, index as int).1),
        decreases lines.len() - index,
    {
        proof {
            lemma_deep_view_index(&lines, index as int);
            lemma_first_end_from_bounds(ls, index + 1);
        }
        if lines_eq_marker(&lines[index], &start) {
            let e = first_end_index(&lines, index + 1, &end);
            if e < lines.len() {
                removed = true;
                index = e + 1;
                continue;
            }
        }
        let line = sub_vec(&lines[index], 0, lines[index].len());
        let ghost old_dv = cleaned.deep_view();
        assert(line@ =~= ls[index as int]);
        assert(line.deep_view() =~= line@);
        cleaned.push(line);
        assert(cleaned.deep_view() =~= old_dv.push(ls[index as int]));
        assert(seq![ls[index as int]] + strip_from(ls, index + 1).0 == strip_from(
            ls,
            index as int,
        ).0);
        assert(old_dv + strip_from(ls, index as int).0 =~= cleaned.deep_view() + strip_from(
            ls,
            index + 1,
        ).0);
        index = index + 1;
    }
    assert(cleaned.deep_view() + strip_from(ls, index as int).0 =~= cleaned.deep_view());
    let mut joined = join_with_newlines(&cleaned);
    if joined.len() > 0 {
        joined.push('\n');
    }
    (string_from_chars(&joined), removed)
}

/// Replaces the managed blocks of a crontab with `managed_block`, after the
/// remaining entries and a blank line.
pub fn merge_with_mihoro_block(existing: &str, managed_block: &str) -> (r: String)
    ensures
        r@ == merge_spec(existing@, managed_block@),
{
    let (without, _) = strip_mihoro_block(existing);
    let kept = trim_end_chars(&chars_of(without.as_str()));
    if kept.len() == 0 {
        managed_block.to_string()
    } else {
        let mut r = kept;
        r.push('\n');
        r.push('\n');
        push_all(&mut r, &chars_of(managed_block));
        assert(r@ =~= trim_end(strip_block_spec(existing@).0) + "\n\n"@ + managed_block@) by {
            reveal_strlit("\n\n");
        }
        string_from_chars(&r)
    }
}

/// The cron entry inside the first managed block of a crontab text, trimmed.
pub fn find_mihoro_entry(content: &str) -> (r: Option<String>)
    ensures
        r matches Some(s) <==> find_entry_spec(content@) is Some,
        r matches Some(s) ==> s@ == find_entry_spec(content@)->0,
{
    let text = chars_of(content);
    let lines = split_lines(&text);
    let ghost ls = lines.deep_view();
    let start = chars_of(MIHORO_CRON_START_MARKER);
    let end = chars_of(MIHORO_CRON_END_MARKER);
    let mut index: usize = 0;
    while index < lines.len()
        invariant
            ls == lines.deep_view(),
            ls == lines_of(content@),
            index <= lines.len(),
            start@ == start_marker(),
            end@ == end_marker(),
            find_from(ls, 0) == find_from(ls, index as int),
        decreases lines.len() - index,
    {
        proof {
            lemma_deep_view_index(&lines, index as int);
            lemma_first_nonblank_from_bounds(ls, index + 1);
        }
        if !lines_eq_marker(&lines[index], &start) {
            index = index + 1;
            continue;
        }
        let k = first_nonblank_index(&lines, index + 1);
        if k >= lines.len() {
            return None;
        }
        proof {
            lemma_deep_view_index(&lines, k as int);
        }
        let line = trim_chars(&lines[k]);
        if chars_eq(&line, &end) {
            index = k + 1;
            continue;
        }
        return Some(string_from_chars(&line));
    }
    None
}

/// `chrono`: the local date and time of a Unix timestamp, as `"%Y-%m-%d %H:%M:%S"`.
/// chrono converts the instant with the machine's UTC offset (a `FixedOffset`,
/// always less than a day in size) and renders the proleptic Gregorian date and
/// the time; which offset applies is left unsaid, as it depends on the machine.
#[verifier::external_body]
fn local_datetime_text(secs: u64) -> (s: String)
    requires
        secs <= MAX_FORMATTABLE_SECS,
    ensures
        local_datetime_of(secs as int, s@),
        secs <= MAX_FOUR_DIGIT_YEAR_SECS ==> is_datetime_shape(s@),
{
    let ts = std::time::UNIX_EPOCH + std::time::Duration::from_secs(secs);
    let local: chrono::DateTime<chrono::Local> = chrono::DateTime::from(ts);
    local.format("%Y-%m-%d %H:%M:%S").to_string()
}

/// Formats a Unix timestamp as a local date and time, `YYYY-MM-DD HH:MM:SS`:
/// the rendering of `secs` shifted by the machine's UTC offset.
pub fn format_datetime(secs: u64) -> (s: String)
    requires
        secs <= MAX_FORMATTABLE_SECS,
    ensures
        local_datetime_of(secs as int, s@),
        secs <= MAX_FOUR_DIGIT_YEAR_SECS ==> is_datetime_shape(s@),
{
    local_datetime_text(secs)
}


// ---------------------------------------------------------------------------
// Laws of the managed block
// ---------------------------------------------------------------------------

/// The crontab text that remains beside the managed block when `existing` is merged:
/// its lines without the managed blocks, trailing whitespace removed.
pub open spec fn kept_text(existing: Seq<char>) -> Seq<char> {
    trim_end(strip_block_spec(existing).0)
}

/// No line of `ls` opens a managed block.
pub open spec fn no_start_line(ls: Seq<Seq<char>>) -> bool {
    forall|k: int| 0 <= k < ls.len() ==> trim(#[trigger] ls[k]) != start_marker()
}

/// A path that fits on one crontab line.
pub open spec fn single_line(s: Seq<char>) -> bool {
    forall|j: int| 0 <= j < s.len() ==> s[j] != '\n'
}

proof fn lemma_first_end_from_shift(a: Seq<Seq<char>>, b: Seq<Seq<char>>, j: int)
    requires
        0 <= j,
    ensures
        first_end_from(a + b, a.len() + j) == a.len() + first_end_from(b, j),
    decreases b.len() - j,
{
    if j < b.len() {
        assert((a + b)[a.len() + j] == b[j]);
        if trim(b[j]) != end_marker() {
            lemma_first_end_from_shift(a, b, j + 1);
        }
    }
}

proof fn lemma_strip_from_shift(a: Seq<Seq<char>>, b: Seq<Seq<char>>, j: int)
    requires
        0 <= j,
    ensures
        strip_from(a + b, a.len() + j) == strip_from(b, j),
    decreases b.len() - j,
{
    if j < b.len() {
        assert((a + b)[a.len() + j] == b[j]);
        lemma_first_end_from_shift(a, b, j + 1);
        lemma_first_end_from_bounds(b, j + 1);
        if trim(b[j]) == start_marker() && first_end_from(b, j + 1) < b.len() {
            lemma_strip_from_shift(a, b, first_end_from(b, j + 1) + 1);
        } else {
            lemma_strip_from_shift(a, b, j + 1);
        }
    }
}

/// Lines that open no block pass through stripping unchanged.
proof fn lemma_strip_from_prefix(a: Seq<Seq<char>>, b: Seq<Seq<char>>, i: int)
    requires
        no_start_line(a),
        0 <= i <= a.len(),
    ensures
        strip_from(a + b, i) == (a.skip(i) + strip_from(b, 0).0, strip_from(b, 0).1),
    decreases a.len() - i,
{
    if i == a.len() {
        lemma_strip_from_shift(a, b, 0);
        assert(a.skip(i) + strip_from(b, 0).0 =~= strip_from(b, 0).0);
    } else {
        assert((a + b)[i] == a[i]);
        lemma_strip_from_prefix(a, b, i + 1);
        assert(seq![a[i]] + (a.skip(i + 1) + strip_from(b, 0).0) =~= a.skip(i) + strip_from(
            b,
            0,
        ).0);
    }
}

proof fn lemma_first_nonblank_from_shift(a: Seq<Seq<char>>, b: Seq<Seq<char>>, j: int)
    requires
        0 <= j,
    ensures
        first_nonblank_from(a + b, a.len() + j) == a.len() + first_nonblank_from(b, j),
    decreases b.len() - j,
{
    if j < b.len() {
        assert((a + b)[a.len() + j] == b[j]);
        if trim(b[j]).len() == 0 {
            lemma_first_nonblank_from_shift(a, b, j + 1);
        }
    }
}

proof fn lemma_find_from_shift(a: Seq<Seq<char>>, b: Seq<Seq<char>>, j: int)
    requires
        0 <= j,
    ensures
        find_from(a + b, a.len() + j) == find_from(b, j),
    decreases b.len() - j,
{
    if j < b.len() {
        assert((a + b)[a.len() + j] == b[j]);
        if trim(b[j]) != start_marker() {
            lemma_find_from_shift(a, b, j + 1);
        } else {
            lemma_first_nonblank_from_shift(a, b, j + 1);
            lemma_first_nonblank_from_bounds(b, j + 1);
            let k = first_nonblank_from(b, j + 1);
            if k < b.len() {
                assert((a + b)[a.len() + k] == b[k]);
                if trim(b[k]) == end_marker() {
                    lemma_find_from_shift(a, b, k + 1);
                }
            }
        }
    }
}

/// Lines that open no block are skipped by the search for the entry.
proof fn lemma_find_from_prefix(a: Seq<Seq<char>>, b: Seq<Seq<char>>, i: int)
    requires
        no_start_line(a),
        0 <= i <= a.len(),
    ensures
        find_from(a + b, i) == find_from(b, 0),
    decreases a.len() - i,
{
    if i == a.len() {
        lemma_find_from_shift(a, b, 0);
    } else {
        assert((a + b)[i] == a[i]);
        lemma_find_from_prefix(a, b, i + 1);
    }
}

proof fn lemma_decimal_digits(n: nat)
    ensures
        decimal(n).len() > 0,
        forall|j: int| 0 <= j < decimal(n).len() ==> '0' <= #[trigger] decimal(n)[j] <= '9',
    decreases n,
{
    if n >= 10 {
        lemma_decimal_digits(n / 10);
    }
}

proof fn lemma_cron_line_shape(n: u16, bin: Seq<char>)
    requires
        single_line(bin),
    ensures
        single_line(cron_line_spec(n, bin)),
        cron_line_spec(n, bin).len() > 0,
        cron_line_spec(n, bin)[0] == '0',
        cron_line_spec(n, bin).last() == 'e',
        trim(cron_line_spec(n, bin)) == cron_line_spec(n, bin),
{
    reveal_strlit("0 */");
    reveal_strlit(" * * * ");
    reveal_strlit(" update");
    lemma_decimal_digits(n as nat);
    let c = cron_line_spec(n, bin);
    assert forall|j: int| 0 <= j < c.len() implies c[j] != '\n' by {
        let p1 = "0 */"@;
        let p2 = p1 + decimal(n as nat);
        let p3 = p2 + " * * * "@;
        let p4 = p3 + bin;
        if j < p1.len() {
        } else if j < p2.len() {
            assert(c[j] == decimal(n as nat)[j - p1.len()]);
        } else if j < p3.len() {
        } else if j < p4.len() {
            assert(c[j] == bin[j - p3.len()]);
        } else {
        }
    }
    crate::text::lemma_trim_of_solid(c);
}

proof fn lemma_markers()
    ensures
        single_line(start_marker()),
        single_line(end_marker()),
        start_marker().len() > 0,
        end_marker().len() > 0,
        start_marker()[0] == '#',
        end_marker()[0] == '#',
        start_marker().last() == '>',
        end_marker().last() == '<',
        trim(start_marker()) == start_marker(),
        trim(end_marker()) == end_marker(),
        start_marker() != end_marker(),
{
    reveal_strlit("# >>> mihoro auto-update >>>");
    reveal_strlit("# <<< mihoro auto-update <<<");
    crate::text::lemma_trim_of_solid(start_marker());
    crate::text::lemma_trim_of_solid(end_marker());
    assert(start_marker()[2] != end_marker()[2]);
}

/// The lines of `"\n" + m`: an empty line, then those of `m`.
proof fn lemma_lines_newline_prefix(m: Seq<char>)
    ensures
        lines_of(seq!['\n'] + m) == seq![Seq::<char>::empty()] + lines_of(m),
{
    crate::text::lemma_split_nl_concat(Seq::<char>::empty(), m);
    crate::text::lemma_split_nl_nonempty(m);
    assert(Seq::<char>::empty() + seq!['\n'] + m =~= seq!['\n'] + m);
    let p = split_nl(m);
    let q = seq![Seq::<char>::empty()] + p;
    assert(split_nl(Seq::<char>::empty()) =~= seq![Seq::<char>::empty()]);
    assert(q.drop_last() =~= seq![Seq::<char>::empty()] + p.drop_last());
    assert(q.last() == p.last());
    let f = |l: Seq<char>| strip_cr(l);
    assert(strip_cr(Seq::<char>::empty()) =~= Seq::<char>::empty());
    assert((seq![Seq::<char>::empty()] + p.drop_last()).map_values(f) =~= seq![
        Seq::<char>::empty(),
    ] + p.drop_last().map_values(f));
    if p.last().len() == 0 {
        assert(lines_of(seq!['\n'] + m) =~= seq![Seq::<char>::empty()] + lines_of(m));
    } else {
        assert(lines_of(seq!['\n'] + m) =~= seq![Seq::<char>::empty()] + lines_of(m));
    }
}

/// A line that a block can hold: no newline in it, no carriage return at its end,
/// and not an end marker.
pub open spec fn block_line(line: Seq<char>) -> bool {
    &&& single_line(line)
    &&& (line.len() == 0 || line.last() != '\r')
    &&& trim(line) != end_marker()
}

proof fn lemma_cron_line_is_block_line(n: u16, bin: Seq<char>)
    requires
        single_line(bin),
    ensures
        block_line(cron_line_spec(n, bin)),
{
    lemma_markers();
    lemma_cron_line_shape(n, bin);
    assert(cron_line_spec(n, bin)[0] != end_marker()[0]);
}

/// A block is three lines: start marker, its line, end marker.
proof fn lemma_block_lines(line: Seq<char>)
    requires
        block_line(line),
    ensures
        lines_of(block_spec(line)) == seq![start_marker(), line, end_marker()],
{
    lemma_markers();
    let s = start_marker();
    let c = line;
    let e = end_marker();
    let nl = seq!['\n'];
    let empty = Seq::<char>::empty();
    crate::text::lemma_lines_plain(s);
    crate::text::lemma_lines_plain(e);
    crate::text::lemma_lines_plain(empty);
    crate::text::lemma_lines_concat(e, empty);
    assert(e + nl + empty =~= e + nl);
    if c.len() > 0 {
        crate::text::lemma_lines_plain(c);
        crate::text::lemma_lines_concat(c, e + nl);
        assert(c + nl + (e + nl) =~= c + nl + e + nl);
        crate::text::lemma_lines_concat(s, c + nl + e + nl);
        assert(s + nl + (c + nl + e + nl) =~= block_spec(line));
        assert(lines_of(block_spec(line)) =~= seq![s, c, e]);
    } else {
        assert(c =~= empty);
        assert(lines_of(e + nl) == seq![e]) by {
            assert(lines_of(e) + lines_of(empty) =~= seq![e]);
        }
        lemma_lines_newline_prefix(e + nl);
        assert(nl + (e + nl) =~= nl + e + nl);
        assert(lines_of(nl + e + nl) =~= seq![empty, e]);
        crate::text::lemma_lines_concat(s, nl + e + nl);
        assert(s + nl + (nl + e + nl) =~= block_spec(line));
        assert(lines_of(block_spec(line)) =~= seq![s, c, e]);
    }
}

/// Stripping a block alone removes all of it: nothing is left, and a block was removed.
pub proof fn lemma_strip_block_alone(line: Seq<char>)
    requires
        block_line(line),
    ensures
        strip_from(lines_of(block_spec(line)), 0) == (Seq::<Seq<char>>::empty(), true),
        strip_block_spec(block_spec(line)) == (Seq::<char>::empty(), true),
{
    lemma_block_lines(line);
    lemma_markers();
    let ls = lines_of(block_spec(line));
    assert(trim(ls[1]) != end_marker());
    assert(first_end_from(ls, 2) == 2);
    assert(first_end_from(ls, 1) == 2);
    assert(strip_from(ls, 3) == (Seq::<Seq<char>>::empty(), false));
}

/// Merging with the block when text remains: the remaining lines, an empty line,
/// then the three lines of the block.
proof fn lemma_merged_lines(existing: Seq<char>, m: Seq<char>)
    requires
        kept_text(existing).len() > 0,
    ensures
        lines_of(merge_spec(existing, m)) == lines_of(kept_text(existing))
            + seq![Seq::<char>::empty()] + lines_of(m),
        kept_text(existing).last() != '\n',
        kept_text(existing).last() != '\r',
        trim_end(kept_text(existing)) == kept_text(existing),
{
    let t = kept_text(existing);
    crate::text::lemma_trim_end_idempotent(strip_block_spec(existing).0);
    reveal_strlit("\n\n");
    assert(t + "\n\n"@ + m =~= t + seq!['\n'] + (seq!['\n'] + m));
    crate::text::lemma_lines_concat(t, seq!['\n'] + m);
    lemma_lines_newline_prefix(m);
    assert(lines_of(t) + (seq![Seq::<char>::empty()] + lines_of(m)) =~= lines_of(t) + seq![
        Seq::<char>::empty(),
    ] + lines_of(m));
}

/// Installing a block is idempotent: merging the same block into the result of a
/// merge changes nothing, for any block line (no newline in it, no carriage return
/// at its end, not an end marker).  It holds when the text that remains beside the
/// block is the join of its own lines (as after stripping, unless `"\r\n"` line
/// endings were normalised) and holds no start marker without an end marker after it.
pub proof fn lemma_merge_block_idempotent(existing: Seq<char>, line: Seq<char>)
    requires
        block_line(line),
        join_lines(lines_of(kept_text(existing))) == kept_text(existing),
        no_start_line(lines_of(kept_text(existing))),
    ensures
        merge_spec(merge_spec(existing, block_spec(line)), block_spec(line)) == merge_spec(
            existing,
            block_spec(line),
        ),
{
    let m = block_spec(line);
    let t = kept_text(existing);
    lemma_strip_block_alone(line);
    lemma_markers();
    if t.len() > 0 {
        lemma_merged_lines(existing, m);
        let a = lines_of(t) + seq![Seq::<char>::empty()];
        let b = lines_of(m);
        assert(no_start_line(a)) by {
            assert forall|k: int| 0 <= k < a.len() implies trim(#[trigger] a[k]) != start_marker() by {
                if k < lines_of(t).len() {
                    assert(a[k] == lines_of(t)[k]);
                } else {
                    assert(a[k] == Seq::<char>::empty());
                    assert(trim(Seq::<char>::empty()) =~= Seq::<char>::empty());
                }
            }
        }
        lemma_strip_from_prefix(a, b, 0);
        assert(a.skip(0) =~= a);
        assert(a + Seq::<Seq<char>>::empty() =~= a);
        let x = merge_spec(existing, m);
        assert(lines_of(x) == a + b);
        assert(strip_from(lines_of(x), 0) == (a, true));
        assert(lines_of(t).len() > 0);
        crate::text::lemma_join_lines_push(lines_of(t), Seq::<char>::empty());
        assert(a =~= lines_of(t).push(Seq::<char>::empty()));
        assert(join_lines(a) == t + seq!['\n'] + Seq::<char>::empty());
        assert(strip_block_spec(x).0 =~= t + seq!['\n', '\n']);
        crate::text::lemma_trim_end_append_ws(t, seq!['\n', '\n']);
        assert(t + seq!['\n', '\n'] =~= t + seq!['\n'] + Seq::<char>::empty() + seq!['\n']);
        assert(kept_text(x) == t);
    }
}

/// Installing the managed block is idempotent: merging the same block into the
/// result of a merge changes nothing, under the conditions of
/// `lemma_merge_block_idempotent` and when the binary path fits on one line.
pub proof fn lemma_merge_idempotent(existing: Seq<char>, interval_hours: u16, bin_path: Seq<char>)
    requires
        single_line(bin_path),
        join_lines(lines_of(kept_text(existing))) == kept_text(existing),
        no_start_line(lines_of(kept_text(existing))),
    ensures
        merge_spec(
            merge_spec(existing, managed_block_spec(interval_hours, bin_path)),
            managed_block_spec(interval_hours, bin_path),
        ) == merge_spec(existing, managed_block_spec(interval_hours, bin_path)),
{
    lemma_cron_line_is_block_line(interval_hours, bin_path);
    lemma_merge_block_idempotent(existing, cron_line_spec(interval_hours, bin_path));
}

/// After merging, the entry found in the crontab is the one just installed, as long
/// as the text beside the block holds no start marker without an end marker after
/// it and the binary path fits on one line.
pub proof fn lemma_merge_then_find(existing: Seq<char>, interval_hours: u16, bin_path: Seq<char>)
    requires
        single_line(bin_path),
        no_start_line(lines_of(kept_text(existing))),
    ensures
        find_entry_spec(merge_spec(existing, managed_block_spec(interval_hours, bin_path)))
            == Some(cron_line_spec(interval_hours, bin_path)),
{
    let m = managed_block_spec(interval_hours, bin_path);
    let t = kept_text(existing);
    lemma_cron_line_is_block_line(interval_hours, bin_path);
    lemma_block_lines(cron_line_spec(interval_hours, bin_path));
    lemma_markers();
    lemma_cron_line_shape(interval_hours, bin_path);
    let b = lines_of(m);
    assert(first_nonblank_from(b, 1) == 1);
    assert(find_from(b, 0) == Some(cron_line_spec(interval_hours, bin_path)));
    if t.len() > 0 {
        lemma_merged_lines(existing, managed_block_spec(interval_hours, bin_path));
        let a = lines_of(t) + seq![Seq::<char>::empty()];
        assert(no_start_line(a)) by {
            assert forall|k: int| 0 <= k < a.len() implies trim(#[trigger] a[k]) != start_marker() by {
                if k < lines_of(t).len() {
                    assert(a[k] == lines_of(t)[k]);
                } else {
                    assert(a[k] == Seq::<char>::empty());
                    assert(trim(Seq::<char>::empty()) =~= Seq::<char>::empty());
                }
            }
        }
        lemma_find_from_prefix(a, b, 0);
    }
}

/// Removing the block after installing it removes it, and leaves no entry behind,
/// under the conditions of `lemma_merge_idempotent`.
pub proof fn lemma_merge_then_strip(existing: Seq<char>, interval_hours: u16, bin_path: Seq<char>)
    requires
        single_line(bin_path),
        join_lines(lines_of(kept_text(existing))) == kept_text(existing),
        no_start_line(lines_of(kept_text(existing))),
    ensures
        strip_block_spec(merge_spec(existing, managed_block_spec(interval_hours, bin_path))).1,
        find_entry_spec(
            strip_block_spec(merge_spec(existing, managed_block_spec(interval_hours, bin_path))).0,
        ) is None,
{
    let m = managed_block_spec(interval_hours, bin_path);
    let t = kept_text(existing);
    lemma_cron_line_is_block_line(interval_hours, bin_path);
    lemma_strip_block_alone(cron_line_spec(interval_hours, bin_path));
    lemma_markers();
    if t.len() > 0 {
        lemma_merged_lines(existing, managed_block_spec(interval_hours, bin_path));
        let a = lines_of(t) + seq![Seq::<char>::empty()];
        let b = lines_of(m);
        assert(no_start_line(a)) by {
            assert forall|k: int| 0 <= k < a.len() implies trim(#[trigger] a[k]) != start_marker() by {
                if k < lines_of(t).len() {
                    assert(a[k] == lines_of(t)[k]);
                } else {
                    assert(a[k] == Seq::<char>::empty());
                    assert(trim(Seq::<char>::empty()) =~= Seq::<char>::empty());
                }
            }
        }
        lemma_strip_from_prefix(a, b, 0);
        assert(a.skip(0) =~= a);
        assert(a + Seq::<Seq<char>>::empty() =~= a);
        let x = merge_spec(existing, m);
        assert(lines_of(x) == a + b);
        assert(strip_from(lines_of(x), 0) == (a, true));
        assert(lines_of(t).len() > 0);
        crate::text::lemma_join_lines_push(lines_of(t), Seq::<char>::empty());
        assert(a =~= lines_of(t).push(Seq::<char>::empty()));
        let s = strip_block_spec(x).0;
        assert(s =~= t + seq!['\n'] + seq!['\n']);
        crate::text::lemma_lines_concat(t, seq!['\n']);
        lemma_lines_newline_prefix(Seq::<char>::empty());
        crate::text::lemma_lines_plain(Seq::<char>::empty());
        assert(seq!['\n'] + Seq::<char>::empty() =~= seq!['\n']);
        assert(lines_of(s) =~= a + Seq::<Seq<char>>::empty());
        lemma_find_from_prefix(a, Seq::<Seq<char>>::empty(), 0);
    } else {
        crate::text::lemma_lines_plain(Seq::<char>::empty());
    }
}


/// Some line that trims to the start marker has, after it, a line that trims to
/// the end marker: `ls` holds a complete managed block.
pub open spec fn has_complete_block(ls: Seq<Seq<char>>) -> bool {
    exists|p: int, q: int|
        0 <= p < q < ls.len() && trim(#[trigger] ls[p]) == start_marker() && trim(#[trigger] ls[q])
            == end_marker()
}

proof fn lemma_first_end_from_le(ls: Seq<Seq<char>>, k: int, j: int)
    requires
        k <= j < ls.len(),
        trim(ls[j]) == end_marker(),
    ensures
        first_end_from(ls, k) <= j,
    decreases j - k,
{
    if k < j && trim(ls[k]) != end_marker() {
        lemma_first_end_from_le(ls, k + 1, j);
    }
}

/// Every line kept by stripping from index `i` is a line of `ls` at or after `i`.
proof fn lemma_strip_kept_from(ls: Seq<Seq<char>>, i: int)
    requires
        0 <= i,
    ensures
        forall|p: int|
            0 <= p < strip_from(ls, i).0.len() ==> exists|j: int|
                i <= j < ls.len() && #[trigger] strip_from(ls, i).0[p] == ls[j],
    decreases ls.len() - i,
{
    if i < ls.len() {
        lemma_first_end_from_bounds(ls, i + 1);
        if trim(ls[i]) == start_marker() && first_end_from(ls, i + 1) < ls.len() {
            let f = first_end_from(ls, i + 1) + 1;
            lemma_strip_kept_from(ls, f);
            let sres = strip_from(ls, i).0;
            assert(sres == strip_from(ls, f).0);
            assert forall|p: int| 0 <= p < sres.len() implies exists|j: int|
                i <= j < ls.len() && #[trigger] sres[p] == ls[j] by {
                let j = choose|j: int| f <= j < ls.len() && #[trigger] strip_from(ls, f).0[p] == ls[j];
                assert(i <= j < ls.len() && sres[p] == ls[j]);
            }
        } else {
            lemma_strip_kept_from(ls, i + 1);
            let r = strip_from(ls, i + 1).0;
            let sres = strip_from(ls, i).0;
            assert(sres == seq![ls[i]] + r);
            assert forall|p: int| 0 <= p < sres.len() implies exists|j: int|
                i <= j < ls.len() && #[trigger] sres[p] == ls[j] by {
                if p == 0 {
                    assert(sres[0] == ls[i]);
                } else {
                    assert(sres[p] == r[p - 1]);
                    let j = choose|j: int| i + 1 <= j < ls.len() && #[trigger] r[p - 1] == ls[j];
                    assert(i <= j < ls.len() && sres[p] == ls[j]);
                }
            }
        }
    }
}

/// The lines kept by stripping hold no complete managed block.
proof fn lemma_strip_kept_no_block(ls: Seq<Seq<char>>, i: int)
    requires
        0 <= i,
    ensures
        !has_complete_block(strip_from(ls, i).0),
    decreases ls.len() - i,
{
    if i < ls.len() {
        lemma_first_end_from_bounds(ls, i + 1);
        if trim(ls[i]) == start_marker() && first_end_from(ls, i + 1) < ls.len() {
            lemma_strip_kept_no_block(ls, first_end_from(ls, i + 1) + 1);
        } else {
            lemma_strip_kept_no_block(ls, i + 1);
            lemma_strip_kept_from(ls, i + 1);
            let r = strip_from(ls, i + 1).0;
            let sres = strip_from(ls, i).0;
            assert(sres == seq![ls[i]] + r);
            if has_complete_block(sres) {
                let (p, q) = choose|p: int, q: int|
                    0 <= p < q < sres.len() && trim(#[trigger] sres[p]) == start_marker() && trim(
                        #[trigger] sres[q],
                    ) == end_marker();
                if p == 0 {
                    assert(sres[q] == r[q - 1]);
                    let j = choose|j: int| i + 1 <= j < ls.len() && #[trigger] r[q - 1] == ls[j];
                    lemma_first_end_from_le(ls, i + 1, j);
                } else {
                    assert(sres[p] == r[p - 1]);
                    assert(sres[q] == r[q - 1]);
                    assert(has_complete_block(r));
                }
            }
        }
    }
}

/// Without a complete managed block, stripping removes nothing.
proof fn lemma_no_block_nothing_removed(ls: Seq<Seq<char>>, i: int)
    requires
        0 <= i,
        !has_complete_block(ls),
    ensures
        !strip_from(ls, i).1,
    decreases ls.len() - i,
{
    if i < ls.len() {
        lemma_first_end_from_bounds(ls, i + 1);
        if trim(ls[i]) == start_marker() && first_end_from(ls, i + 1) < ls.len() {
            let q = first_end_from(ls, i + 1);
            assert(trim(ls[q]) == end_marker());
            assert(has_complete_block(ls));
        } else {
            lemma_no_block_nothing_removed(ls, i + 1);
        }
    }
}

proof fn lemma_trim_strip_cr(l: Seq<char>)
    ensures
        trim(strip_cr(l)) == trim(l),
{
}

/// No line of a text holds a newline.
proof fn lemma_lines_single(s: Seq<char>)
    ensures
        forall|k: int| 0 <= k < lines_of(s).len() ==> single_line(#[trigger] lines_of(s)[k]),
{
    crate::text::lemma_split_nl_pieces(s);
    crate::text::lemma_split_nl_nonempty(s);
    let p = split_nl(s);
    assert forall|k: int| 0 <= k < lines_of(s).len() implies single_line(
        #[trigger] lines_of(s)[k],
    ) by {
        if k < p.len() - 1 {
            assert(lines_of(s)[k] == strip_cr(p[k]));
            assert forall|j: int| 0 <= j < strip_cr(p[k]).len() implies strip_cr(p[k])[j]
                != '\n' by {
                assert(strip_cr(p[k])[j] == p[k][j]);
            }
        } else {
            assert(lines_of(s)[k] == p[p.len() - 1]);
        }
    }
}

/// Joined lines that hold no newline split back into themselves.
proof fn lemma_split_join(ks: Seq<Seq<char>>)
    requires
        ks.len() > 0,
        forall|k: int| 0 <= k < ks.len() ==> single_line(#[trigger] ks[k]),
    ensures
        split_nl(join_lines(ks)) == ks,
    decreases ks.len(),
{
    if ks.len() == 1 {
        crate::text::lemma_split_nl_plain(ks[0]);
        assert(seq![ks[0]] =~= ks);
    } else {
        let k0 = ks.drop_last();
        assert forall|k: int| 0 <= k < k0.len() implies single_line(#[trigger] k0[k]) by {
            assert(k0[k] == ks[k]);
        }
        lemma_split_join(k0);
        assert(single_line(ks.last()));
        crate::text::lemma_split_nl_concat(join_lines(k0), ks.last());
        crate::text::lemma_split_nl_plain(ks.last());
        assert(k0 + seq![ks.last()] =~= ks);
    }
}

/// The lines of joined lines followed by a newline: the lines, each without a
/// final carriage return.
proof fn lemma_lines_of_joined(ks: Seq<Seq<char>>)
    requires
        ks.len() > 0,
        forall|k: int| 0 <= k < ks.len() ==> single_line(#[trigger] ks[k]),
    ensures
        lines_of(join_lines(ks).push('\n')) == ks.map_values(|l: Seq<char>| strip_cr(l)),
{
    lemma_split_join(ks);
    crate::text::lemma_split_nl_concat(join_lines(ks), Seq::<char>::empty());
    assert(join_lines(ks) + seq!['\n'] + Seq::<char>::empty() =~= join_lines(ks).push('\n'));
    assert(split_nl(Seq::<char>::empty()) =~= seq![Seq::<char>::empty()]);
    let p = ks + seq![Seq::<char>::empty()];
    assert(p.drop_last() =~= ks);
    assert(lines_of(join_lines(ks).push('\n')) =~= ks.map_values(|l: Seq<char>| strip_cr(l)));
}

/// Stripping removes every managed block: stripping its result finds nothing
/// more to remove.
pub proof fn lemma_strip_removes_every_block(content: Seq<char>)
    ensures
        !strip_block_spec(strip_block_spec(content).0).1,
{
    let ls = lines_of(content);
    let ks = strip_from(ls, 0).0;
    let out = strip_block_spec(content).0;
    lemma_strip_kept_no_block(ls, 0);
    if join_lines(ks).len() == 0 {
        assert(out.len() == 0);
        crate::text::lemma_lines_plain(out);
    } else {
        assert(ks.len() > 0);
        lemma_lines_single(content);
        lemma_strip_kept_from(ls, 0);
        assert forall|k: int| 0 <= k < ks.len() implies single_line(#[trigger] ks[k]) by {
            let j = choose|j: int| 0 <= j < ls.len() && #[trigger] ks[k] == ls[j];
        }
        lemma_lines_of_joined(ks);
        let ks2 = ks.map_values(|l: Seq<char>| strip_cr(l));
        assert(lines_of(out) == ks2);
        assert(!has_complete_block(ks2)) by {
            if has_complete_block(ks2) {
                let (p, q) = choose|p: int, q: int|
                    0 <= p < q < ks2.len() && trim(#[trigger] ks2[p]) == start_marker() && trim(
                        #[trigger] ks2[q],
                    ) == end_marker();
                lemma_trim_strip_cr(ks[p]);
                lemma_trim_strip_cr(ks[q]);
                assert(trim(ks[p]) == start_marker() && trim(ks[q]) == end_marker());
                assert(has_complete_block(ks));
            }
        }
        lemma_no_block_nothing_removed(ks2, 0);
    }
}

/// Without a complete managed block, stripping keeps every line.
proof fn lemma_no_block_keeps_lines(ls: Seq<Seq<char>>, i: int)
    requires
        0 <= i <= ls.len(),
        !has_complete_block(ls),
    ensures
        strip_from(ls, i).0 == ls.skip(i),
    decreases ls.len() - i,
{
    if i < ls.len() {
        lemma_first_end_from_bounds(ls, i + 1);
        if trim(ls[i]) == start_marker() && first_end_from(ls, i + 1) < ls.len() {
            let q = first_end_from(ls, i + 1);
            assert(trim(ls[q]) == end_marker());
            assert(has_complete_block(ls));
        } else {
            lemma_no_block_keeps_lines(ls, i + 1);
            assert(seq![ls[i]] + ls.skip(i + 1) =~= ls.skip(i));
        }
    } else {
        assert(ls.skip(i) =~= Seq::<Seq<char>>::empty());
    }
}

/// The lines that stripping keeps.
pub open spec fn kept_lines(content: Seq<char>) -> Seq<Seq<char>> {
    strip_from(lines_of(content), 0).0
}

/// Stripping twice is stripping once: the second pass keeps the text and removes
/// nothing.  It holds unless a kept line ends in a carriage return (which the
/// first pass leaves before the newline it adds, and the second pass drops).
pub proof fn lemma_strip_idempotent(content: Seq<char>)
    requires
        forall|k: int|
            0 <= k < kept_lines(content).len() ==> (#[trigger] kept_lines(content)[k]).len() == 0
                || kept_lines(content)[k].last() != '\r',
    ensures
        strip_block_spec(strip_block_spec(content).0) == (strip_block_spec(content).0, false),
{
    let ls = lines_of(content);
    let ks = strip_from(ls, 0).0;
    let out = strip_block_spec(content).0;
    lemma_strip_removes_every_block(content);
    lemma_strip_kept_no_block(ls, 0);
    if join_lines(ks).len() == 0 {
        assert(out.len() == 0);
        crate::text::lemma_lines_plain(out);
        assert(strip_from(lines_of(out), 0).0 =~= Seq::<Seq<char>>::empty());
        assert(join_lines(Seq::<Seq<char>>::empty()) =~= Seq::<char>::empty());
    } else {
        assert(ks.len() > 0);
        lemma_lines_single(content);
        lemma_strip_kept_from(ls, 0);
        assert forall|k: int| 0 <= k < ks.len() implies single_line(#[trigger] ks[k]) by {
            let j = choose|j: int| 0 <= j < ls.len() && #[trigger] ks[k] == ls[j];
        }
        lemma_lines_of_joined(ks);
        let ks2 = ks.map_values(|l: Seq<char>| strip_cr(l));
        assert(ks2 =~= ks) by {
            assert forall|k: int| 0 <= k < ks.len() implies ks2[k] == ks[k] by {
                assert(kept_lines(content)[k] == ks[k]);
            }
        }
        assert(lines_of(out) == ks);
        lemma_no_block_keeps_lines(ks, 0);
        assert(ks.skip(0) =~= ks);
    }
}

} // verus!
