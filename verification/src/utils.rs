//! Decisions taken on what the system reports: root permission, the device
//! of the running system, whether a device holds btrfs, the current date
//! and time as snapshot folders name it, and paths below the mount point.
use vstd::prelude::*;
use crate::error::AppError;
use crate::globals::MOUNT_POINT;
use crate::paths::{path_join, path_join_spec};
use crate::text::{
    digit_char, is_digit, lemma_digit_char_injective, lemma_four_digits, lemma_two_digits, lemma_padded_decimal, lemma_decimal_len, lemma_split_once_concat, padded_decimal_spec, padded_decimal_string, split_char, split_once, split_once_spec, split_spec,
    str_eq, trim, trim_spec, views, lemma_split_without_separator,
};

verus! {

/// `nix::unistd::Uid::effective().is_root()`: whether the process runs with
/// effective user id 0. The answer depends on the process, so the contract
/// states nothing of it.
#[verifier::external_body]
fn effective_uid_is_root() -> bool {
    nix::unistd::Uid::effective().is_root()
}

/// The outcome of the root check for a process that does or does not run
/// as root.
pub fn root_permission(is_root: bool) -> (r: Result<(), AppError>)
    ensures
        is_root ==> r is Ok,
        !is_root ==> r matches Err(AppError::NoRootPermission),
{
    if is_root {
        Ok(())
    } else {
        Err(AppError::NoRootPermission)
    }
}

/// Checks that the current program runs as root.
pub fn check_root_permission() -> (r: Result<(), AppError>)
    ensures
        r is Ok || r matches Err(AppError::NoRootPermission),
{
    root_permission(effective_uid_is_root())
}

/// The device that `findmnt -no SOURCE /` names in `findmnt_output`: the
/// text before the first `[` (which starts the subvolume), or all of it.
pub open spec fn os_device_spec(findmnt_output: Seq<char>) -> Seq<char> {
    match split_once_spec(findmnt_output, '[') {
        Some((device, _)) => device,
        None => findmnt_output,
    }
}

/// The device that holds the running system's root, from the output of
/// `findmnt -no SOURCE /`.
pub fn get_crr_os_device(findmnt_output: &str) -> (r: String)
    ensures
        r@ == os_device_spec(findmnt_output@),
{
    match split_once(findmnt_output, '[') {
        Some((device, _)) => device,
        None => String::from_str(findmnt_output),
    }
}

/// Every line of the trimmed output of `findmnt -no FSTYPE <device>`
/// reads `btrfs`.
pub open spec fn all_btrfs_spec(findmnt_output: Seq<char>) -> bool {
    let lines = split_spec(trim_spec(findmnt_output), '\n');
    forall|i: int| 0 <= i < lines.len() ==> #[trigger] lines[i] == "btrfs"@
}

/// The text holds no line break.
pub open spec fn one_line(s: Seq<char>) -> bool {
    forall|i: int| 0 <= i < s.len() ==> s[i] != '\n'
}

/// Where the trimmed output of `findmnt -no FSTYPE <device>` is one line, the
/// device holds btrfs exactly when that line is `btrfs`: any other file
/// system type, such as `ext4`, is refused.
pub proof fn lemma_btrfs_check_of_one_line(findmnt_output: Seq<char>)
    ensures
        one_line(trim_spec(findmnt_output)) ==> (all_btrfs_spec(findmnt_output) <==> trim_spec(findmnt_output)
            == "btrfs"@),
{
    let t = trim_spec(findmnt_output);
    if one_line(t) {
        lemma_split_without_separator(t, '\n');
        assert(split_spec(t, '\n')[0] == t);
    }
}

/// A line of the trimmed output that is not `btrfs` makes the check fail,
/// wherever it stands.
pub proof fn lemma_btrfs_check_refuses_other_line(findmnt_output: Seq<char>, i: int)
    requires
        0 <= i < split_spec(trim_spec(findmnt_output), '\n').len(),
        split_spec(trim_spec(findmnt_output), '\n')[i] != "btrfs"@,
    ensures
        !all_btrfs_spec(findmnt_output),
{
}

/// Checks, from the output of `findmnt -no FSTYPE <device>`, that `device`
/// holds a btrfs file system.
pub fn check_is_btrfs_filesystem(device: &str, findmnt_output: &str) -> (r: Result<(), AppError>)
    ensures
        all_btrfs_spec(findmnt_output@) ==> r is Ok,
        !all_btrfs_spec(findmnt_output@) ==> (r matches Err(AppError::NotBtrfs(d)) && d@ == device@),
        r is Ok ==> forall|i: int|
            0 <= i < split_spec(trim_spec(findmnt_output@), '\n').len() ==> #[trigger] split_spec(
                trim_spec(findmnt_output@),
                '\n',
            )[i] == "btrfs"@,
        one_line(trim_spec(findmnt_output@)) ==> (r is Ok <==> trim_spec(findmnt_output@) == "btrfs"@),
{
    proof {
        lemma_btrfs_check_of_one_line(findmnt_output@);
    }
    let trimmed = trim(findmnt_output);
    let lines = split_char(trimmed.as_str(), '\n');
    let n = lines.len();
    let mut i: usize = 0;
    while i < n
        invariant
            n == lines@.len(),
            i <= n,
            views(lines@) == split_spec(trim_spec(findmnt_output@), '\n'),
            forall|j: int| 0 <= j < i ==> #[trigger] views(lines@)[j] == "btrfs"@,
        decreases n - i,
    {
        if !str_eq(lines[i].as_str(), "btrfs") {
            assert(views(lines@)[i as int] != "btrfs"@);
            proof {
                lemma_btrfs_check_refuses_other_line(findmnt_output@, i as int);
                lemma_btrfs_check_of_one_line(findmnt_output@);
            }
            return Err(AppError::NotBtrfs(String::from_str(device)));
        }
        i = i + 1;
    }
    Ok(())
}

/// `path` joined to the mount point.
pub fn mount_point_join(path: &str) -> (r: String)
    ensures
        r@ == path_join_spec(MOUNT_POINT@, path@),
{
    path_join(MOUNT_POINT, path)
}

/// A calendar date and a time of day, as plain numbers.
#[derive(Debug, Clone, Copy)]
pub struct DateTimeFields {
    pub year: i32,
    pub month: u8,
    pub day: u8,
    pub hour: u8,
    pub minute: u8,
    pub second: u8,
}

impl DateTimeFields {
    /// Each field lies in its range.
    pub open spec fn wf(self) -> bool {
        &&& 1 <= self.month <= 12
        &&& 1 <= self.day <= 31
        &&& self.hour < 24
        &&& self.minute < 60
        &&& self.second < 60
    }
}

/// `time::OffsetDateTime::now_local()`: the current date and time in the
/// local offset, or `None` where that offset cannot be determined. The
/// contract claims only the ranges of the fields that `time` documents;
/// which moment comes back depends on the clock.
#[verifier::external_body]
fn local_date_time() -> (r: Option<DateTimeFields>)
    ensures
        r matches Some(f) ==> f.wf(),
{
    match time::OffsetDateTime::now_local() {
        Ok(t) => Some(DateTimeFields {
            year: t.year(),
            month: u8::from(t.month()),
            day: t.day(),
            hour: t.hour(),
            minute: t.minute(),
            second: t.second(),
        }),
        Err(_) => None,
    }
}

/// `time::OffsetDateTime::now_utc()`: the current date and time in UTC.
/// The contract claims only the ranges of the fields that `time` documents.
#[verifier::external_body]
fn utc_date_time() -> (r: DateTimeFields)
    ensures
        r.wf(),
{
    let t = time::OffsetDateTime::now_utc();
    DateTimeFields {
        year: t.year(),
        month: u8::from(t.month()),
        day: t.day(),
        hour: t.hour(),
        minute: t.minute(),
        second: t.second(),
    }
}

/// The year as the `[year]` component writes it: a `-` for years before
/// year 0, a `+` for years past 9999, then the absolute value in at least
/// four digits.
pub open spec fn year_text(year: int) -> Seq<char> {
    let sign = if year < 0 {
        "-"@
    } else if year >= 10000 {
        "+"@
    } else {
        Seq::<char>::empty()
    };
    let abs = if year < 0 {
        -year
    } else {
        year
    };
    sign + padded_decimal_spec(abs as nat, 4)
}

/// The date as `[year]-[month]-[day]` writes it.
pub open spec fn date_text(f: DateTimeFields) -> Seq<char> {
    year_text(f.year as int) + "-"@ + padded_decimal_spec(f.month as nat, 2) + "-"@
        + padded_decimal_spec(f.day as nat, 2)
}

/// The time as `[hour]:[minute]:[second]` writes it.
pub open spec fn time_text(f: DateTimeFields) -> Seq<char> {
    padded_decimal_spec(f.hour as nat, 2) + ":"@ + padded_decimal_spec(f.minute as nat, 2) + ":"@
        + padded_decimal_spec(f.second as nat, 2)
}

/// `t` reads `hh:mm:ss` with the hour (0 to 23, not wrapped to a 12-hour
/// clock), the minute and the second of `f`, two decimal digits each.
pub open spec fn time_digits(f: DateTimeFields, t: Seq<char>) -> bool {
    &&& t.len() == 8
    &&& t[0] == digit_char(f.hour as nat / 10) && t[1] == digit_char(f.hour as nat % 10)
    &&& t[2] == ':'
    &&& t[3] == digit_char(f.minute as nat / 10) && t[4] == digit_char(f.minute as nat % 10)
    &&& t[5] == ':'
    &&& t[6] == digit_char(f.second as nat / 10) && t[7] == digit_char(f.second as nat % 10)
}

/// `d` reads `YYYY-MM-DD` with the year, the month and the day of `f`, in
/// four, two and two decimal digits.
pub open spec fn date_digits(f: DateTimeFields, d: Seq<char>) -> bool {
    let y = f.year as nat;
    &&& d.len() == 10
    &&& d[0] == digit_char(y / 1000) && d[1] == digit_char(y / 100 % 10)
    &&& d[2] == digit_char(y / 10 % 10) && d[3] == digit_char(y % 10)
    &&& d[4] == '-'
    &&& d[5] == digit_char(f.month as nat / 10) && d[6] == digit_char(f.month as nat % 10)
    &&& d[7] == '-'
    &&& d[8] == digit_char(f.day as nat / 10) && d[9] == digit_char(f.day as nat % 10)
}

/// The time text of a moment spells its own hour, minute and second, two
/// digits each, separated by colons.
pub proof fn lemma_time_text_digits(f: DateTimeFields)
    requires
        f.wf(),
    ensures
        time_digits(f, time_text(f)),
{
    reveal_strlit(":");
    lemma_two_digits(f.hour as nat);
    lemma_two_digits(f.minute as nat);
    lemma_two_digits(f.second as nat);
}

/// For a year from 0 to 9999, the date text of a moment spells its own
/// year, month and day, separated by dashes.
pub proof fn lemma_date_text_digits(f: DateTimeFields)
    requires
        f.wf(),
        0 <= f.year <= 9999,
    ensures
        date_digits(f, date_text(f)),
{
    reveal_strlit("-");
    reveal_strlit("+");
    lemma_four_digits(f.year as nat);
    lemma_two_digits(f.month as nat);
    lemma_two_digits(f.day as nat);
    assert(year_text(f.year as int) =~= padded_decimal_spec(f.year as nat, 4));
}

/// Two moments that differ in their hour, minute or second have different
/// time texts, so snapshots taken at different times of one day get
/// different folder names.
pub proof fn lemma_different_times_differ(f: DateTimeFields, g: DateTimeFields)
    requires
        f.wf(),
        g.wf(),
        f.hour != g.hour || f.minute != g.minute || f.second != g.second,
    ensures
        time_text(f) != time_text(g),
{
    lemma_time_text_digits(f);
    lemma_time_text_digits(g);
    let t = time_text(f);
    let u = time_text(g);
    if f.hour != g.hour {
        if f.hour as nat / 10 != g.hour as nat / 10 {
            lemma_digit_char_injective(f.hour as nat / 10, g.hour as nat / 10);
            assert(t[0] != u[0]);
        } else {
            lemma_digit_char_injective(f.hour as nat % 10, g.hour as nat % 10);
            assert(t[1] != u[1]);
        }
    } else if f.minute != g.minute {
        if f.minute as nat / 10 != g.minute as nat / 10 {
            lemma_digit_char_injective(f.minute as nat / 10, g.minute as nat / 10);
            assert(t[3] != u[3]);
        } else {
            lemma_digit_char_injective(f.minute as nat % 10, g.minute as nat % 10);
            assert(t[4] != u[4]);
        }
    } else {
        if f.second as nat / 10 != g.second as nat / 10 {
            lemma_digit_char_injective(f.second as nat / 10, g.second as nat / 10);
            assert(t[6] != u[6]);
        } else {
            lemma_digit_char_injective(f.second as nat % 10, g.second as nat % 10);
            assert(t[7] != u[7]);
        }
    }
}

/// The date and the time of `f`, as snapshot folders name them.
pub fn format_date_time(f: DateTimeFields) -> (r: (String, String))
    ensures
        r.0@ == date_text(f),
        r.1@ == time_text(f),
        f.wf() ==> time_digits(f, r.1@),
        f.wf() && 0 <= f.year <= 9999 ==> date_digits(f, r.0@),
{
    proof {
        if f.wf() {
            lemma_time_text_digits(f);
            if 0 <= f.year <= 9999 {
                lemma_date_text_digits(f);
            }
        }
    }
    let mut date = String::new();
    if f.year < 0 {
        date.append("-");
    } else if f.year >= 10000 {
        date.append("+");
    }
    let abs: usize = if f.year < 0 {
        (-(f.year as i64)) as usize
    } else {
        f.year as usize
    };
    let y = padded_decimal_string(abs, 4);
    date.append(y.as_str());
    date.append("-");
    let m = padded_decimal_string(f.month as usize, 2);
    date.append(m.as_str());
    date.append("-");
    let d = padded_decimal_string(f.day as usize, 2);
    date.append(d.as_str());
    assert(date@ =~= date_text(f));
    let mut time = padded_decimal_string(f.hour as usize, 2);
    time.append(":");
    let mi = padded_decimal_string(f.minute as usize, 2);
    time.append(mi.as_str());
    time.append(":");
    let s = padded_decimal_string(f.second as usize, 2);
    time.append(s.as_str());
    assert(time@ =~= time_text(f));
    (date, time)
}

/// The date and time, as snapshot folders name them, of the local moment
/// `local` where the local offset could be determined; otherwise of the
/// current moment in UTC, read only then.
pub fn date_time_or_utc(local: Option<DateTimeFields>) -> (r: (String, String))
    ensures
        local matches Some(f) ==> r.0@ == date_text(f) && r.1@ == time_text(f),
        local is None ==> exists|f: DateTimeFields| f.wf() && r.0@ == date_text(f) && r.1@ == time_text(f),
{
    match local {
        Some(f) => format_date_time(f),
        None => format_date_time(utc_date_time()),
    }
}

/// The current date and time, in the local offset where it can be
/// determined and in UTC otherwise, as snapshot folders name them.
pub fn get_current_date_time() -> (r: (String, String))
    ensures
        exists|f: DateTimeFields| f.wf() && r.0@ == date_text(f) && r.1@ == time_text(f),
{
    let local = local_date_time();
    let r = date_time_or_utc(local);
    proof {
        if let Some(f) = local {
            assert(f.wf() && r.0@ == date_text(f) && r.1@ == time_text(f));
        }
    }
    r
}

/// The date and the time of a moment read back from its folder name: the
/// name `<date>_<time>` splits at its first `_` into exactly that date and
/// that time, and for a year from 0 to 9999 the date reads `YYYY-MM-DD`
/// and the time `hh:mm:ss`.
pub proof fn lemma_folder_name_round_trip(f: DateTimeFields)
    requires
        f.wf(),
    ensures
        split_once_spec(date_text(f) + "_"@ + time_text(f), '_') == Some((date_text(f), time_text(f))),
        0 <= f.year <= 9999 ==> date_text(f).len() == 10,
        time_text(f).len() == 8,
{
    reveal_strlit("_");
    reveal_strlit("-");
    reveal_strlit("+");
    reveal_strlit(":");
    let abs: int = if f.year < 0 {
        -(f.year as int)
    } else {
        f.year as int
    };
    lemma_padded_decimal(abs as nat, 4);
    lemma_padded_decimal(f.month as nat, 2);
    lemma_padded_decimal(f.day as nat, 2);
    lemma_padded_decimal(f.hour as nat, 2);
    lemma_padded_decimal(f.minute as nat, 2);
    lemma_padded_decimal(f.second as nat, 2);
    lemma_decimal_len(abs as nat);
    lemma_decimal_len(f.month as nat);
    lemma_decimal_len(f.day as nat);
    lemma_decimal_len(f.hour as nat);
    lemma_decimal_len(f.minute as nat);
    lemma_decimal_len(f.second as nat);
    let d = date_text(f);
    assert forall|i: int| 0 <= i < d.len() implies d[i] != '_' by {
        let y = year_text(f.year as int);
        let m = padded_decimal_spec(f.month as nat, 2);
        let dd = padded_decimal_spec(f.day as nat, 2);
        assert(d == y + "-"@ + m + "-"@ + dd);
        let p = padded_decimal_spec(abs as nat, 4);
        if i < y.len() {
            if y.len() > p.len() && i == 0 {
            } else {
                let sign_len = y.len() - p.len();
                assert(y[i] == p[i - sign_len]);
                assert(is_digit(p[i - sign_len]));
            }
        } else if i == y.len() {
        } else if i < y.len() + 1 + m.len() {
            assert(is_digit(m[i - y.len() - 1]));
        } else if i == y.len() + 1 + m.len() {
        } else {
            assert(is_digit(dd[i - y.len() - 2 - m.len()]));
        }
    }
    assert("_"@ =~= seq!['_']);
    lemma_split_once_concat(d, '_', time_text(f));
}

} // verus!
