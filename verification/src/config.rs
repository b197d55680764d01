//! The configuration of the backup scheduler: where backups are kept, which
//! directories are backed up on which schedules, and to which remotes they
//! are copied.

use crate::error::{Error, ErrorView};
use crate::cli::Cli;
use crate::host::{expand_path, names_no_variable};
use crate::paths::{join, said, spec_user_config_path, Bak9Path, BAK9_CONFIG_FILENAME, HOME_CONFIG_DIR};
use crate::run_name::{find_separator, lemma_first_separator_found, no_separator, separator_at};
use crate::text::{decimal, from_chars, push_decimal, push_str, str_eq, to_chars};
use vstd::prelude::*;
use vstd::string::*;

verus! {

/// The key of the storage directory in a configuration file.
pub const CFG_BACKUP_STORAGE_DIR: &'static str = "backup_storage_dir";

/// A day of the week.
#[derive(Clone, Copy, Debug, PartialEq, Eq, Structural)]
pub enum DayOfWeek {
    Sunday,
    Monday,
    Tuesday,
    Wednesday,
    Thursday,
    Friday,
    Saturday,
}

impl DayOfWeek {
    /// The number of the day in a schedule: 0 for Sunday to 6 for Saturday.
    pub open spec fn spec_number(self) -> u8 {
        match self {
            DayOfWeek::Sunday => 0,
            DayOfWeek::Monday => 1,
            DayOfWeek::Tuesday => 2,
            DayOfWeek::Wednesday => 3,
            DayOfWeek::Thursday => 4,
            DayOfWeek::Friday => 5,
            DayOfWeek::Saturday => 6,
        }
    }

    /// The number of the day in a schedule: 0 for Sunday to 6 for Saturday.
    pub fn number(&self) -> (n: u8)
        ensures
            n == self.spec_number(),
    {
        match self {
            DayOfWeek::Sunday => 0,
            DayOfWeek::Monday => 1,
            DayOfWeek::Tuesday => 2,
            DayOfWeek::Wednesday => 3,
            DayOfWeek::Thursday => 4,
            DayOfWeek::Friday => 5,
            DayOfWeek::Saturday => 6,
        }
    }
}

// ---------------------------------------------------------------------------
// Sorted lists of numbers
// ---------------------------------------------------------------------------

/// `s`, ascending, with `x` put in behind the last number that is not greater.
pub open spec fn insert_ascending(s: Seq<u8>, x: u8) -> Seq<u8>
    decreases s.len(),
{
    if s.len() > 0 && x < s.last() {
        insert_ascending(s.drop_last(), x).push(s.last())
    } else {
        s.push(x)
    }
}

/// The numbers of `s` in ascending order.
pub open spec fn ascending(s: Seq<u8>) -> Seq<u8>
    decreases s.len(),
{
    if s.len() == 0 {
        Seq::empty()
    } else {
        insert_ascending(ascending(s.drop_last()), s.last())
    }
}

/// Whether no number of `s` is greater than one behind it.
pub open spec fn is_ascending(s: Seq<u8>) -> bool {
    forall|i: int, j: int| 0 <= i <= j < s.len() ==> s[i] <= s[j]
}

/// Putting a number into an ascending list keeps it ascending and adds
/// just that number.
pub proof fn lemma_insert_ascending(s: Seq<u8>, x: u8)
    requires
        is_ascending(s),
    ensures
        is_ascending(insert_ascending(s, x)),
        insert_ascending(s, x).to_multiset() == s.to_multiset().insert(x),
        insert_ascending(s, x).len() == s.len() + 1,
    decreases s.len(),
{
    broadcast use vstd::seq_lib::group_to_multiset_ensures;

    if s.len() > 0 && x < s.last() {
        let p = s.drop_last();
        lemma_insert_ascending(p, x);
        let q = insert_ascending(p, x);
        let r = q.push(s.last());
        assert(s =~= p.push(s.last()));
        assert forall|i: int, j: int| 0 <= i <= j < r.len() implies r[i] <= r[j] by {
            if j == r.len() - 1 && i < j {
                // every number of q is x or a number of p
                assert(q.to_multiset().count(q[i]) > 0);
                if q[i] != x {
                    assert(p.to_multiset().count(q[i]) > 0);
                    let k = choose|k: int| 0 <= k < p.len() && p[k] == q[i];
                    assert(s[k] <= s[s.len() - 1]);
                }
            }
        }
        assert(r.to_multiset() =~= s.to_multiset().insert(x));
    } else {
        let r = s.push(x);
        assert forall|i: int, j: int| 0 <= i <= j < r.len() implies r[i] <= r[j] by {
            if j == r.len() - 1 && i < j {
                assert(s[i] <= s[s.len() - 1]);
            }
        }
    }
}

/// `ascending(s)` is ascending and holds the numbers of `s`, each as often
/// as `s` holds it.
pub proof fn lemma_ascending_sorts(s: Seq<u8>)
    ensures
        is_ascending(ascending(s)),
        ascending(s).to_multiset() == s.to_multiset(),
        ascending(s).len() == s.len(),
    decreases s.len(),
{
    broadcast use vstd::seq_lib::group_to_multiset_ensures;

    if s.len() > 0 {
        lemma_ascending_sorts(s.drop_last());
        lemma_insert_ascending(ascending(s.drop_last()), s.last());
        assert(s =~= s.drop_last().push(s.last()));
    }
}

/// Puts `x` into the ascending list `v`.
pub fn insert_number(v: &mut Vec<u8>, x: u8)
    ensures
        final(v)@ == insert_ascending(old(v)@, x),
    decreases old(v).len(),
{
    if v.len() > 0 && x < v[v.len() - 1] {
        let last = v[v.len() - 1];
        v.pop();
        assert(v@ == old(v)@.drop_last());
        insert_number(v, x);
        v.push(last);
    } else {
        v.push(x);
    }
}

/// The numbers of `v` in ascending order.
pub fn sort_numbers(v: &Vec<u8>) -> (out: Vec<u8>)
    ensures
        out@ == ascending(v@),
{
    let mut out: Vec<u8> = Vec::new();
    let mut i: usize = 0;
    while i < v.len()
        invariant
            i <= v.len(),
            out@ == ascending(v@.take(i as int)),
        decreases v.len() - i,
    {
        assert(v@.take(i + 1).drop_last() == v@.take(i as int));
        insert_number(&mut out, v[i]);
        i += 1;
    }
    assert(v@.take(v.len() as int) == v@);
    out
}

// ---------------------------------------------------------------------------
// Schedules
// ---------------------------------------------------------------------------

/// When a backup recurs. Each unit of time is left open, or set to one
/// value, or set to a list of values; never to both.
#[derive(Debug)]
pub struct BackupConfigSchedule {
    pub name: String,
    pub minute: Option<u8>,
    pub minutes: Option<Vec<u8>>,
    pub hour: Option<u8>,
    pub hours: Option<Vec<u8>>,
    pub day_of_week: Option<DayOfWeek>,
    pub days_of_week: Option<Vec<DayOfWeek>>,
    pub day_of_month: Option<u8>,
    pub days_of_month: Option<Vec<u8>>,
    pub month: Option<u8>,
    pub months: Option<Vec<u8>>,
}

/// A schedule as mathematical data; days of the week by their numbers.
pub struct ScheduleView {
    pub name: Seq<char>,
    pub minute: Option<u8>,
    pub minutes: Option<Seq<u8>>,
    pub hour: Option<u8>,
    pub hours: Option<Seq<u8>>,
    pub day_of_week: Option<u8>,
    pub days_of_week: Option<Seq<u8>>,
    pub day_of_month: Option<u8>,
    pub days_of_month: Option<Seq<u8>>,
    pub month: Option<u8>,
    pub months: Option<Seq<u8>>,
}

/// The numbers of an optional list.
pub open spec fn option_numbers(v: Option<Vec<u8>>) -> Option<Seq<u8>> {
    match v {
        Some(v) => Some(v@),
        None => None,
    }
}

/// The numbers of the days of a list.
pub open spec fn day_numbers(days: Seq<DayOfWeek>) -> Seq<u8> {
    days.map_values(|d: DayOfWeek| d.spec_number())
}

impl View for BackupConfigSchedule {
    type V = ScheduleView;

    open spec fn view(&self) -> ScheduleView {
        ScheduleView {
            name: self.name@,
            minute: self.minute,
            minutes: option_numbers(self.minutes),
            hour: self.hour,
            hours: option_numbers(self.hours),
            day_of_week: match self.day_of_week {
                Some(d) => Some(d.spec_number()),
                None => None,
            },
            days_of_week: match self.days_of_week {
                Some(days) => Some(day_numbers(days@)),
                None => None,
            },
            day_of_month: self.day_of_month,
            days_of_month: option_numbers(self.days_of_month),
            month: self.month,
            months: option_numbers(self.months),
        }
    }
}

/// The numbers `values`, each raised by `by`.
pub open spec fn raised(values: Seq<u8>, by: u8) -> Seq<u8> {
    values.map_values(|v: u8| (v + by) as u8)
}

/// The numerals of `values`, in the order given, with commas between them.
pub open spec fn join_numbers(values: Seq<u8>) -> Seq<char>
    decreases values.len(),
{
    if values.len() == 0 {
        Seq::empty()
    } else if values.len() == 1 {
        decimal(values[0] as nat)
    } else {
        join_numbers(values.drop_last()) + seq![','] + decimal(values.last() as nat)
    }
}

/// One field of a cron expression: the values of the list in ascending order
/// where a list is set, else the single value where one is set, else `*`.
pub open spec fn cron_field(list: Option<Seq<u8>>, single: Option<u8>) -> Seq<char> {
    match list {
        Some(values) => join_numbers(ascending(values)),
        None => match single {
            Some(value) => decimal(value as nat),
            None => seq!['*'],
        },
    }
}

impl ScheduleView {
    /// The cron expression of the schedule with the days of the week
    /// counted from `first_day` for Sunday: second, minute, hour, day of
    /// the month, month, day of the week and year. The second is always 0
    /// and the year is always open.
    pub open spec fn expression(self, first_day: u8) -> Seq<char> {
        seq!['0', ' '] + cron_field(self.minutes, self.minute) + seq![' '] + cron_field(
            self.hours,
            self.hour,
        ) + seq![' '] + cron_field(self.days_of_month, self.day_of_month) + seq![' ']
            + cron_field(self.months, self.month) + seq![' '] + cron_field(
            match self.days_of_week {
                Some(days) => Some(raised(days, first_day)),
                None => None,
            },
            match self.day_of_week {
                Some(day) => Some((day + first_day) as u8),
                None => None,
            },
        ) + seq![' ', '*']
    }

    /// The cron expression of the schedule, the days of the week counted
    /// from 0 for Sunday to 6 for Saturday.
    pub open spec fn cron_expression(self) -> Seq<char> {
        self.expression(0)
    }

    /// The cron expression of the schedule as the evaluator of schedules
    /// reads it: it counts the days of the week from 1 for Sunday to 7 for
    /// Saturday.
    pub open spec fn evaluator_expression(self) -> Seq<char> {
        self.expression(1)
    }

    /// The first unit of time, from the month down to the minute, that is
    /// set both to one value and to a list.
    pub open spec fn conflict(self) -> Option<Seq<char>> {
        if self.month is Some && self.months is Some {
            Some("'month' and months are mutually exclusive"@)
        } else if self.day_of_month is Some && self.days_of_month is Some {
            Some("'day_of_month' and 'days_of_month' are mutually exclusive"@)
        } else if self.day_of_week is Some && self.days_of_week is Some {
            Some("'day_of_week' and 'days_of_week' are mutually exclusive"@)
        } else if self.hour is Some && self.hours is Some {
            Some("'hour' and 'hours' are mutually exclusive"@)
        } else if self.minute is Some && self.minutes is Some {
            Some("'minute' and 'minutes' are mutually exclusive"@)
        } else {
            None
        }
    }
}

/// Appends the numerals of `values`, with commas between them.
fn push_joined(out: &mut Vec<char>, values: &Vec<u8>)
    ensures
        final(out)@ == old(out)@ + join_numbers(values@),
{
    let ghost before = out@;
    let mut i: usize = 0;
    while i < values.len()
        invariant
            i <= values.len(),
            out@ == before + join_numbers(values@.take(i as int)),
        decreases values.len() - i,
    {
        proof {
            assert(values@.take(i + 1).drop_last() == values@.take(i as int));
            reveal_strlit(",");
            assert(","@ =~= seq![',']);
        }
        if i > 0 {
            push_str(out, ",");
        }
        push_decimal(out, values[i] as u32);
        proof {
            let next = values@.take(i + 1);
            if i == 0 {
                assert(join_numbers(values@.take(0)) =~= Seq::<char>::empty());
                assert(out@ =~= before + join_numbers(next));
            } else {
                assert(out@ =~= before + join_numbers(next));
            }
        }
        i += 1;
    }
    assert(values@.take(values.len() as int) == values@);
}

/// Appends one field of a cron expression.
fn push_cron_field(out: &mut Vec<char>, list: Option<&Vec<u8>>, single: Option<u8>)
    ensures
        final(out)@ == old(out)@ + cron_field(
            match list {
                Some(v) => Some(v@),
                None => None,
            },
            single,
        ),
{
    match list {
        Some(values) => {
            let sorted = sort_numbers(values);
            push_joined(out, &sorted);
        },
        None => match single {
            Some(value) => {
                push_decimal(out, value as u32);
            },
            None => {
                proof {
                    reveal_strlit("*");
                    assert("*"@ =~= seq!['*']);
                }
                push_str(out, "*");
            },
        },
    }
}

/// The numbers of the days of a list, counted from `first_day` for Sunday.
fn day_number_list(days: &Vec<DayOfWeek>, first_day: u8) -> (out: Vec<u8>)
    requires
        first_day <= 1,
    ensures
        out@ == raised(day_numbers(days@), first_day),
{
    let mut out: Vec<u8> = Vec::new();
    let mut i: usize = 0;
    while i < days.len()
        invariant
            i <= days.len(),
            first_day <= 1,
            out@ == raised(day_numbers(days@.take(i as int)), first_day),
        decreases days.len() - i,
    {
        out.push(days[i].number() + first_day);
        assert(out@ =~= raised(day_numbers(days@.take(i + 1)), first_day));
        i += 1;
    }
    assert(days@.take(days.len() as int) == days@);
    out
}

/// A copy of a list of numbers.
fn copy_numbers(v: &Vec<u8>) -> (out: Vec<u8>)
    ensures
        out@ == v@,
{
    let mut out: Vec<u8> = Vec::new();
    let mut i: usize = 0;
    while i < v.len()
        invariant
            i <= v.len(),
            out@ == v@.take(i as int),
        decreases v.len() - i,
    {
        out.push(v[i]);
        i += 1;
    }
    assert(v@.take(v.len() as int) == v@);
    out
}

/// A copy of an optional list of numbers.
fn copy_option_numbers(v: &Option<Vec<u8>>) -> (out: Option<Vec<u8>>)
    ensures
        option_numbers(out) == option_numbers(*v),
{
    match v {
        Some(v) => Some(copy_numbers(v)),
        None => None,
    }
}

impl BackupConfigSchedule {
    /// Checks that no unit of time is set both to one value and to a list.
    /// Where one is, the error names the first such unit, from the month
    /// down to the minute.
    pub fn validate_schema(&self) -> (r: Result<(), String>)
        ensures
            match r {
                Ok(_) => self@.conflict() is None,
                Err(msg) => self@.conflict() == Some(msg@),
            },
    {
        if self.month.is_some() && self.months.is_some() {
            Err(String::from_str("'month' and months are mutually exclusive"))
        } else if self.day_of_month.is_some() && self.days_of_month.is_some() {
            Err(String::from_str("'day_of_month' and 'days_of_month' are mutually exclusive"))
        } else if self.day_of_week.is_some() && self.days_of_week.is_some() {
            Err(String::from_str("'day_of_week' and 'days_of_week' are mutually exclusive"))
        } else if self.hour.is_some() && self.hours.is_some() {
            Err(String::from_str("'hour' and 'hours' are mutually exclusive"))
        } else if self.minute.is_some() && self.minutes.is_some() {
            Err(String::from_str("'minute' and 'minutes' are mutually exclusive"))
        } else {
            Ok(())
        }
    }

    /// The cron expression of the schedule, the days of the week counted
    /// from 0 for Sunday.
    pub fn to_cron_expression(&self) -> (s: String)
        ensures
            s@ == self@.cron_expression(),
    {
        self.write_expression(0)
    }

    /// The cron expression of the schedule as the evaluator of schedules
    /// reads it, the days of the week counted from 1 for Sunday.
    pub fn to_evaluator_expression(&self) -> (s: String)
        ensures
            s@ == self@.evaluator_expression(),
    {
        self.write_expression(1)
    }

    /// The cron expression of the schedule with the days of the week
    /// counted from `first_day` for Sunday.
    fn write_expression(&self, first_day: u8) -> (s: String)
        requires
            first_day <= 1,
        ensures
            s@ == self@.expression(first_day),
    {
        proof {
            reveal_strlit("0 ");
            reveal_strlit(" ");
            reveal_strlit(" *");
            assert("0 "@ =~= seq!['0', ' ']);
            assert(" "@ =~= seq![' ']);
            assert(" *"@ =~= seq![' ', '*']);
        }
        let mut out: Vec<char> = Vec::new();
        push_str(&mut out, "0 ");
        push_cron_field(&mut out, self.minutes.as_ref(), self.minute);
        push_str(&mut out, " ");
        push_cron_field(&mut out, self.hours.as_ref(), self.hour);
        push_str(&mut out, " ");
        push_cron_field(&mut out, self.days_of_month.as_ref(), self.day_of_month);
        push_str(&mut out, " ");
        push_cron_field(&mut out, self.months.as_ref(), self.month);
        push_str(&mut out, " ");
        let day = match self.day_of_week {
            Some(d) => Some(d.number() + first_day),
            None => None,
        };
        match &self.days_of_week {
            Some(days) => {
                let numbers = day_number_list(days, first_day);
                push_cron_field(&mut out, Some(&numbers), day);
            },
            None => {
                push_cron_field(&mut out, None, day);
            },
        }
        push_str(&mut out, " *");
        assert(out@ =~= self@.expression(first_day));
        from_chars(&out)
    }

    /// A copy of the schedule.
    pub fn duplicate(&self) -> (r: Self)
        ensures
            r@ == self@,
    {
        BackupConfigSchedule {
            name: self.name.clone(),
            minute: self.minute,
            minutes: copy_option_numbers(&self.minutes),
            hour: self.hour,
            hours: copy_option_numbers(&self.hours),
            day_of_week: self.day_of_week,
            days_of_week: match &self.days_of_week {
                Some(days) => {
                    let mut out: Vec<DayOfWeek> = Vec::new();
                    let mut i: usize = 0;
                    while i < days.len()
                        invariant
                            i <= days.len(),
                            out@ == days@.take(i as int),
                        decreases days.len() - i,
                    {
                        out.push(days[i]);
                        i += 1;
                    }
                    assert(days@.take(days.len() as int) == days@);
                    Some(out)
                },
                None => None,
            },
            day_of_month: self.day_of_month,
            days_of_month: copy_option_numbers(&self.days_of_month),
            month: self.month,
            months: copy_option_numbers(&self.months),
        }
    }
}

// ---------------------------------------------------------------------------
// The schedules that every configuration has
// ---------------------------------------------------------------------------

/// The schedule `name` that runs at midnight, on the days that the other
/// fields leave.
pub open spec fn midnight_schedule(
    name: Seq<char>,
    day_of_week: Option<u8>,
    day_of_month: Option<u8>,
    month: Option<u8>,
    months: Option<Seq<u8>>,
) -> ScheduleView {
    ScheduleView {
        name,
        minute: Some(0),
        minutes: None,
        hour: Some(0),
        hours: None,
        day_of_week,
        days_of_week: None,
        day_of_month,
        days_of_month: None,
        month,
        months,
    }
}

/// The schedules that can be named without being configured: every
/// midnight, every Sunday, every first of the month, of the quarter and of
/// the year.
pub open spec fn spec_default_schedules() -> Seq<ScheduleView> {
    seq![
        midnight_schedule("daily"@, None, None, None, None),
        midnight_schedule("weekly"@, Some(0u8), None, None, None),
        midnight_schedule("monthly"@, None, Some(1u8), None, None),
        midnight_schedule("quarterly"@, None, Some(1u8), None, Some(seq![1u8, 4u8, 7u8, 10u8])),
        midnight_schedule("annual"@, None, Some(1u8), Some(1u8), None),
    ]
}

/// The views of a list of schedules.
pub open spec fn schedule_views(schedules: Seq<BackupConfigSchedule>) -> Seq<ScheduleView> {
    schedules.map_values(|s: BackupConfigSchedule| s@)
}

fn new_midnight_schedule(
    name: &str,
    day_of_week: Option<DayOfWeek>,
    day_of_month: Option<u8>,
    month: Option<u8>,
    months: Option<Vec<u8>>,
) -> (r: BackupConfigSchedule)
    ensures
        r@ == midnight_schedule(
            name@,
            match day_of_week {
                Some(d) => Some(d.spec_number()),
                None => None,
            },
            day_of_month,
            month,
            option_numbers(months),
        ),
{
    BackupConfigSchedule {
        name: String::from_str(name),
        minute: Some(0),
        minutes: None,
        hour: Some(0),
        hours: None,
        day_of_week,
        days_of_week: None,
        day_of_month,
        days_of_month: None,
        month,
        months,
    }
}

/// The schedules that can be named without being configured.
pub fn default_schedules() -> (r: Vec<BackupConfigSchedule>)
    ensures
        schedule_views(r@) == spec_default_schedules(),
{
    let mut quarters: Vec<u8> = Vec::new();
    quarters.push(1);
    quarters.push(4);
    quarters.push(7);
    quarters.push(10);
    assert(quarters@ =~= seq![1u8, 4u8, 7u8, 10u8]);
    let mut r: Vec<BackupConfigSchedule> = Vec::new();
    r.push(new_midnight_schedule("daily", None, None, None, None));
    r.push(new_midnight_schedule("weekly", Some(DayOfWeek::Sunday), None, None, None));
    r.push(new_midnight_schedule("monthly", None, Some(1), None, None));
    r.push(new_midnight_schedule("quarterly", None, Some(1), None, Some(quarters)));
    r.push(new_midnight_schedule("annual", None, Some(1), Some(1), None));
    assert(schedule_views(r@) =~= spec_default_schedules());
    r
}

// ---------------------------------------------------------------------------
// The configuration
// ---------------------------------------------------------------------------

/// How many archives of one schedule are kept.
#[derive(Debug)]
pub struct BackupConfigArchive {
    pub schedule: String,
    pub max_archives: u32,
}

/// A host that backups are copied to.
#[derive(Debug)]
pub struct BackupConfigRemote {
    pub name: String,
    pub host: String,
    pub user: Option<String>,
    pub backup_storage_dir: String,
}

/// A named list of remotes.
#[derive(Debug)]
pub struct BackupConfigRemoteGroup {
    pub name: String,
    pub remotes: Vec<String>,
}

/// What of a backup is copied to one remote or to the remotes of one group.
#[derive(Debug)]
pub struct BackupConfigSync {
    pub remote: Option<String>,
    pub remote_group: Option<String>,
    pub sync_full: bool,
    pub sync_incremental: bool,
    pub sync_archive: bool,
}

/// One directory that is backed up.
#[derive(Debug)]
pub struct BackupConfigBackup {
    pub name: String,
    pub source_dir: String,
    pub full_schedule: String,
    pub incremental_schedule: String,
    pub max_full: u32,
    pub archives: Vec<BackupConfigArchive>,
    pub syncs: Vec<BackupConfigSync>,
}

/// The whole configuration.
#[derive(Debug)]
pub struct BackupConfig {
    pub backup_storage_dir: String,
    pub schedules: Vec<BackupConfigSchedule>,
    pub backups: Vec<BackupConfigBackup>,
    pub remotes: Vec<BackupConfigRemote>,
    pub remote_groups: Vec<BackupConfigRemoteGroup>,
}

/// The place of the first of `names` at or behind `from` that is `name`;
/// the number of names where there is none.
pub open spec fn find_name(names: Seq<Seq<char>>, name: Seq<char>, from: int) -> int
    decreases names.len() - from,
{
    if from < 0 || from >= names.len() {
        names.len() as int
    } else if names[from] == name {
        from
    } else {
        find_name(names, name, from + 1)
    }
}

/// The first of `names` that is `name` stands where `find_name` says, and
/// nowhere before.
pub proof fn lemma_find_name(names: Seq<Seq<char>>, name: Seq<char>, from: int)
    requires
        0 <= from,
    ensures
        from <= find_name(names, name, from) || find_name(names, name, from) == names.len(),
        find_name(names, name, from) <= names.len(),
        find_name(names, name, from) < names.len() ==> names[find_name(names, name, from)]
            == name,
        forall|j: int| from <= j < find_name(names, name, from) ==> names[j] != name,
    decreases names.len() - from,
{
    if from < names.len() && names[from] != name {
        lemma_find_name(names, name, from + 1);
    }
}

/// The texts of a list of strings.
pub open spec fn string_texts(v: Seq<String>) -> Seq<Seq<char>> {
    v.map_values(|s: String| s@)
}

/// The names of the configured remotes.
pub open spec fn remote_names(remotes: Seq<BackupConfigRemote>) -> Seq<Seq<char>> {
    remotes.map_values(|r: BackupConfigRemote| r.name@)
}

/// The names of the configured groups of remotes.
pub open spec fn group_names(groups: Seq<BackupConfigRemoteGroup>) -> Seq<Seq<char>> {
    groups.map_values(|g: BackupConfigRemoteGroup| g.name@)
}

/// The names of the configured backups.
pub open spec fn backup_names(backups: Seq<BackupConfigBackup>) -> Seq<Seq<char>> {
    backups.map_values(|b: BackupConfigBackup| b.name@)
}

/// The names of a list of schedules.
pub open spec fn schedule_names(schedules: Seq<ScheduleView>) -> Seq<Seq<char>> {
    schedules.map_values(|s: ScheduleView| s.name)
}

/// The schedules of a list of archive rules.
pub open spec fn archive_schedules(archives: Seq<BackupConfigArchive>) -> Seq<Seq<char>> {
    archives.map_values(|a: BackupConfigArchive| a.schedule@)
}

/// The places of the remotes that `names` name, in that order; `None`
/// where one of them names no configured remote.
pub open spec fn resolve_remotes(
    remotes: Seq<Seq<char>>,
    names: Seq<Seq<char>>,
) -> Option<Seq<int>>
    decreases names.len(),
{
    if names.len() == 0 {
        Some(Seq::empty())
    } else {
        match resolve_remotes(remotes, names.drop_last()) {
            None => None,
            Some(front) => {
                let i = find_name(remotes, names.last(), 0);
                if i < remotes.len() {
                    Some(front.push(i))
                } else {
                    None
                }
            },
        }
    }
}

/// The first of `names` that names no configured remote.
pub open spec fn first_unknown_remote(remotes: Seq<Seq<char>>, names: Seq<Seq<char>>) -> Seq<
    char,
>
    decreases names.len(),
{
    if names.len() == 0 {
        Seq::empty()
    } else if resolve_remotes(remotes, names.drop_last()) is None {
        first_unknown_remote(remotes, names.drop_last())
    } else {
        names.last()
    }
}

impl BackupConfigSync {
    /// What is wrong with the rule: it names neither a remote nor a group,
    /// or both.
    pub open spec fn conflict(&self) -> Option<Seq<char>> {
        if self.remote is None && self.remote_group is None {
            Some("either `remote` or `remote_group` must be set"@)
        } else if self.remote is Some && self.remote_group is Some {
            Some("`remote` and `remote_group` are mutually exclusive"@)
        } else {
            None
        }
    }

    /// Checks that the rule names a remote or a group, and not both.
    pub fn validate_schema(&self) -> (r: Result<(), String>)
        ensures
            match r {
                Ok(_) => self.conflict() is None,
                Err(msg) => self.conflict() == Some(msg@),
            },
    {
        if self.remote.is_none() && self.remote_group.is_none() {
            Err(String::from_str("either `remote` or `remote_group` must be set"))
        } else if self.remote.is_some() && self.remote_group.is_some() {
            Err(String::from_str("`remote` and `remote_group` are mutually exclusive"))
        } else {
            Ok(())
        }
    }

    /// The places, among the remotes of `config`, of the remotes that the
    /// rule names: the one remote where a remote is set; else every remote
    /// of the group, in the group's order, where a group is set; else none.
    /// The error names what is not configured.
    pub open spec fn spec_remotes(&self, config: &BackupConfig) -> Result<Seq<int>, ErrorView> {
        let names = remote_names(config.remotes@);
        match self.remote {
            Some(remote) => {
                let i = find_name(names, remote@, 0);
                if i < names.len() {
                    Ok(seq![i])
                } else {
                    Err(
                        ErrorView::ConfigReferenceNotFound {
                            schema: "[remote]"@,
                            name: remote@,
                        },
                    )
                }
            },
            None => match self.remote_group {
                Some(group) => {
                    let g = find_name(group_names(config.remote_groups@), group@, 0);
                    if g < config.remote_groups@.len() {
                        let members = string_texts(config.remote_groups@[g].remotes@);
                        match resolve_remotes(names, members) {
                            Some(places) => Ok(places),
                            None => Err(
                                ErrorView::ConfigReferenceNotFound {
                                    schema: "[remote]"@,
                                    name: first_unknown_remote(names, members),
                                },
                            ),
                        }
                    } else {
                        Err(
                            ErrorView::ConfigReferenceNotFound {
                                schema: "[remote_group]"@,
                                name: group@,
                            },
                        )
                    }
                },
                None => Ok(Seq::empty()),
            },
        }
    }

    /// The remotes that the rule names.
    #[verifier::loop_isolation(false)]
    pub fn remotes<'cfg>(&self, config: &'cfg BackupConfig) -> (r: Result<
        Vec<&'cfg BackupConfigRemote>,
        Error,
    >)
        ensures
            match r {
                Ok(found) => self.spec_remotes(config) matches Ok(places) && found@.len()
                    == places.len() && forall|k: int|
                    0 <= k < places.len() ==> 0 <= #[trigger] places[k] < config.remotes@.len()
                        && *found@[k] == config.remotes@[places[k]],
                Err(e) => self.spec_remotes(config) == Err::<Seq<int>, ErrorView>(e@),
            },
    {
        let ghost names = remote_names(config.remotes@);
        match &self.remote {
            Some(remote) => {
                let found = config.remote(remote.as_str())?;
                let mut out: Vec<&'cfg BackupConfigRemote> = Vec::new();
                out.push(found);
                Ok(out)
            },
            None => match &self.remote_group {
                Some(group) => {
                    let group = config.remote_group(group.as_str())?;
                    let ghost members = string_texts(group.remotes@);
                    let mut out: Vec<&'cfg BackupConfigRemote> = Vec::new();
                    let mut i: usize = 0;
                    while i < group.remotes.len()
                        invariant
                            i <= group.remotes.len(),
                            names == remote_names(config.remotes@),
                            members == string_texts(group.remotes@),
                            resolve_remotes(names, members.take(i as int)) matches Some(places)
                                && out@.len() == places.len() && forall|k: int|
                                0 <= k < places.len() ==> 0 <= #[trigger] places[k]
                                    < config.remotes@.len() && *out@[k]
                                    == config.remotes@[places[k]],
                        decreases group.remotes.len() - i,
                    {
                        proof {
                            assert(members.take(i + 1).drop_last() == members.take(i as int));
                            assert(members.take(i + 1).last() == group.remotes@[i as int]@);
                        }
                        let found = match config.remote(group.remotes[i].as_str()) {
                            Ok(found) => found,
                            Err(e) => {
                                proof {
                                    lemma_first_unknown(names, members, i + 1);
                                }
                                return Err(e);
                            },
                        };
                        out.push(found);
                        i += 1;
                    }
                    assert(members.take(group.remotes.len() as int) == members);
                    Ok(out)
                },
                None => Ok(Vec::new()),
            },
        }
    }
}

/// Where the first `k` names cannot all be resolved, neither can all names.
pub proof fn lemma_resolve_prefix(remotes: Seq<Seq<char>>, names: Seq<Seq<char>>, k: int)
    requires
        0 <= k <= names.len(),
        resolve_remotes(remotes, names.take(k)) is None,
    ensures
        resolve_remotes(remotes, names) is None,
        first_unknown_remote(remotes, names) == first_unknown_remote(remotes, names.take(k)),
    decreases names.len() - k,
{
    if k == names.len() {
        assert(names.take(k) == names);
    } else {
        assert(names.take(k + 1).drop_last() == names.take(k));
        lemma_resolve_prefix(remotes, names, k + 1);
    }
}

/// Where the first `k - 1` names can be resolved and the `k`-th cannot, the
/// `k`-th is the first unknown name.
pub proof fn lemma_first_unknown(remotes: Seq<Seq<char>>, names: Seq<Seq<char>>, k: int)
    requires
        1 <= k <= names.len(),
        resolve_remotes(remotes, names.take(k - 1)) is Some,
        find_name(remotes, names[k - 1], 0) >= remotes.len(),
    ensures
        resolve_remotes(remotes, names) is None,
        first_unknown_remote(remotes, names) == names[k - 1],
{
    assert(names.take(k).drop_last() == names.take(k - 1));
    assert(names.take(k).last() == names[k - 1]);
    lemma_resolve_prefix(remotes, names, k);
}

impl BackupConfigBackup {
    /// The archive rule of the backup for the schedule `schedule_name`: the
    /// first one of that schedule.
    pub fn archive<'cfg>(&'cfg self, schedule_name: &str) -> (r: Result<
        &'cfg BackupConfigArchive,
        Error,
    >)
        ensures
            ({
                let i = find_name(archive_schedules(self.archives@), schedule_name@, 0);
                match r {
                    Ok(found) => i < self.archives@.len() && *found == self.archives@[i],
                    Err(e) => i == self.archives@.len() && e@
                        == (ErrorView::ConfigReferenceNotFound {
                        schema: "Archive"@,
                        name: self.name@ + seq![':'] + schedule_name@,
                    }),
                }
            }),
    {
        let ghost names = archive_schedules(self.archives@);
        let mut i: usize = 0;
        while i < self.archives.len()
            invariant
                i <= self.archives.len(),
                names == archive_schedules(self.archives@),
                find_name(names, schedule_name@, 0) == find_name(names, schedule_name@, i as int),
            decreases self.archives.len() - i,
        {
            if str_eq(self.archives[i].schedule.as_str(), schedule_name) {
                return Ok(&self.archives[i]);
            }
            i += 1;
        }
        proof {
            reveal_strlit(":");
            assert(":"@ =~= seq![':']);
        }
        let mut name = self.name.clone();
        name.append(":");
        name.append(schedule_name);
        Err(Error::ConfigReferenceNotFound { schema: String::from_str("Archive"), name })
    }
}

impl BackupConfig {
    /// The configured remote `name`: the first of that name.
    pub fn remote<'cfg>(&'cfg self, name: &str) -> (r: Result<&'cfg BackupConfigRemote, Error>)
        ensures
            ({
                let i = find_name(remote_names(self.remotes@), name@, 0);
                match r {
                    Ok(found) => 0 <= i < self.remotes@.len() && *found == self.remotes@[i],
                    Err(e) => i >= self.remotes@.len() && e@
                        == (ErrorView::ConfigReferenceNotFound {
                        schema: "[remote]"@,
                        name: name@,
                    }),
                }
            }),
    {
        let ghost names = remote_names(self.remotes@);
        let mut i: usize = 0;
        while i < self.remotes.len()
            invariant
                i <= self.remotes.len(),
                names == remote_names(self.remotes@),
                find_name(names, name@, 0) == find_name(names, name@, i as int),
            decreases self.remotes.len() - i,
        {
            if str_eq(self.remotes[i].name.as_str(), name) {
                return Ok(&self.remotes[i]);
            }
            i += 1;
        }
        Err(Error::reference_not_found("[remote]", name))
    }

    /// The configured group of remotes `name`: the first of that name.
    pub fn remote_group<'cfg>(&'cfg self, name: &str) -> (r: Result<
        &'cfg BackupConfigRemoteGroup,
        Error,
    >)
        ensures
            ({
                let i = find_name(group_names(self.remote_groups@), name@, 0);
                match r {
                    Ok(found) => 0 <= i < self.remote_groups@.len() && *found
                        == self.remote_groups@[i],
                    Err(e) => i >= self.remote_groups@.len() && e@
                        == (ErrorView::ConfigReferenceNotFound {
                        schema: "[remote_group]"@,
                        name: name@,
                    }),
                }
            }),
    {
        let ghost names = group_names(self.remote_groups@);
        let mut i: usize = 0;
        while i < self.remote_groups.len()
            invariant
                i <= self.remote_groups.len(),
                names == group_names(self.remote_groups@),
                find_name(names, name@, 0) == find_name(names, name@, i as int),
            decreases self.remote_groups.len() - i,
        {
            if str_eq(self.remote_groups[i].name.as_str(), name) {
                return Ok(&self.remote_groups[i]);
            }
            i += 1;
        }
        Err(Error::reference_not_found("[remote_group]", name))
    }

    /// The configured backup `name`: the first of that name.
    pub fn backup<'cfg>(&'cfg self, backup_name: &str) -> (r: Result<
        &'cfg BackupConfigBackup,
        Error,
    >)
        ensures
            ({
                let i = find_name(backup_names(self.backups@), backup_name@, 0);
                match r {
                    Ok(found) => 0 <= i < self.backups@.len() && *found == self.backups@[i],
                    Err(e) => i >= self.backups@.len() && e@
                        == (ErrorView::ConfigReferenceNotFound {
                        schema: "[backup]"@,
                        name: backup_name@,
                    }),
                }
            }),
    {
        let ghost names = backup_names(self.backups@);
        let mut i: usize = 0;
        while i < self.backups.len()
            invariant
                i <= self.backups.len(),
                names == backup_names(self.backups@),
                find_name(names, backup_name@, 0) == find_name(names, backup_name@, i as int),
            decreases self.backups.len() - i,
        {
            if str_eq(self.backups[i].name.as_str(), backup_name) {
                return Ok(&self.backups[i]);
            }
            i += 1;
        }
        Err(Error::reference_not_found("[backup]", backup_name))
    }

    /// The schedule that `schedule_name` names: the first configured
    /// schedule of that name; where there is none, the schedule of that name
    /// that every configuration has.
    pub open spec fn spec_schedule(&self, schedule_name: Seq<char>) -> Option<ScheduleView> {
        let own = schedule_views(self.schedules@);
        let i = find_name(schedule_names(own), schedule_name, 0);
        if i < own.len() {
            Some(own[i])
        } else {
            let common = spec_default_schedules();
            let j = find_name(schedule_names(common), schedule_name, 0);
            if j < common.len() {
                Some(common[j])
            } else {
                None
            }
        }
    }

    /// The schedule that `schedule_name` names.
    pub fn schedule(&self, schedule_name: &str) -> (r: Result<BackupConfigSchedule, Error>)
        ensures
            match r {
                Ok(found) => self.spec_schedule(schedule_name@) == Some(found@),
                Err(e) => self.spec_schedule(schedule_name@) is None && e@
                    == (ErrorView::ConfigReferenceNotFound {
                    schema: "[schedule]"@,
                    name: schedule_name@,
                }),
            },
    {
        let ghost own = schedule_views(self.schedules@);
        let mut i: usize = 0;
        while i < self.schedules.len()
            invariant
                i <= self.schedules.len(),
                own == schedule_views(self.schedules@),
                find_name(schedule_names(own), schedule_name@, 0) == find_name(
                    schedule_names(own),
                    schedule_name@,
                    i as int,
                ),
            decreases self.schedules.len() - i,
        {
            if str_eq(self.schedules[i].name.as_str(), schedule_name) {
                return Ok(self.schedules[i].duplicate());
            }
            i += 1;
        }
        let common = default_schedules();
        let ghost views = spec_default_schedules();
        let mut j: usize = 0;
        while j < common.len()
            invariant
                j <= common.len(),
                views == schedule_views(common@),
                views == spec_default_schedules(),
                own == schedule_views(self.schedules@),
                find_name(schedule_names(own), schedule_name@, 0) >= own.len(),
                find_name(schedule_names(views), schedule_name@, 0) == find_name(
                    schedule_names(views),
                    schedule_name@,
                    j as int,
                ),
            decreases common.len() - j,
        {
            assert(views[j as int] == common@[j as int]@);
            if str_eq(common[j].name.as_str(), schedule_name) {
                return Ok(common[j].duplicate());
            }
            j += 1;
        }
        Err(Error::reference_not_found("[schedule]", schedule_name))
    }
}

/// Where the configuration stands where none is named:
/// `<home>/.config/bak9/bak9.toml`.
pub fn default_config_path(home_dir: &str) -> (r: String)
    ensures
        r@ == spec_user_config_path(home_dir@),
{
    let dir = join(home_dir, HOME_CONFIG_DIR);
    join(dir.as_str(), BAK9_CONFIG_FILENAME)
}

/// Where the configuration stands: where the command line names it, else
/// at the default place below `home_dir`.
pub fn select_config_path(cli: &Cli, home_dir: &str) -> (r: String)
    ensures
        r@ == (match cli.config_file {
            Some(path) => path@,
            None => spec_user_config_path(home_dir@),
        }),
{
    match &cli.config_file {
        Some(path) => path.clone(),
        None => default_config_path(home_dir),
    }
}

/// The configuration file to read: `config_path` where one is given, else
/// the file at the default place below `home_dir`. `is_there` is asked
/// whether the file is there; a file that is missing is an error, of a kind
/// of its own for the default place.
pub fn read_config<F: Fn(&str) -> bool>(config_path: Option<&str>, home_dir: &str, is_there: &F) -> (r:
    Result<String, Error>)
    requires
        forall|path: &str| call_requires(is_there, (path,)),
    ensures
        ({
            let wanted = match config_path {
                Some(path) => path@,
                None => spec_user_config_path(home_dir@),
            };
            match r {
                Ok(path) => path@ == wanted && said(is_there, wanted, true),
                Err(e) => said(is_there, wanted, false) && e@ == (match config_path {
                    Some(path) => ErrorView::ConfigFileNotFound { path: wanted },
                    None => ErrorView::DefaultConfigFileNotFound { path: wanted },
                }),
            }
        }),
{
    match config_path {
        Some(path) => {
            if !is_there(path) {
                Err(Error::ConfigFileNotFound { path: String::from_str(path) })
            } else {
                Ok(String::from_str(path))
            }
        },
        None => {
            let path = default_config_path(home_dir);
            if !is_there(path.as_str()) {
                Err(Error::DefaultConfigFileNotFound { path })
            } else {
                Ok(path)
            }
        },
    }
}

/// The configuration file to read for the command line `cli`.
pub fn read_cli_config<F: Fn(&str) -> bool>(cli: &Cli, home_dir: &str, is_there: &F) -> (r: Result<
    String,
    Error,
>)
    requires
        forall|path: &str| call_requires(is_there, (path,)),
    ensures
        ({
            let wanted = match cli.config_file {
                Some(path) => path@,
                None => spec_user_config_path(home_dir@),
            };
            match r {
                Ok(path) => path@ == wanted && said(is_there, wanted, true),
                Err(e) => said(is_there, wanted, false) && e@ == (match cli.config_file {
                    Some(path) => ErrorView::ConfigFileNotFound { path: wanted },
                    None => ErrorView::DefaultConfigFileNotFound { path: wanted },
                }),
            }
        }),
{
    match &cli.config_file {
        Some(path) => read_config(Some(path.as_str()), home_dir, is_there),
        None => read_config(None, home_dir, is_there),
    }
}

/// What is told of a group that names a remote that is not configured.
pub open spec fn unknown_remote_message(group: Seq<char>, remote: Seq<char>) -> Seq<char> {
    "remote_group['"@ + group + "'].remote['"@ + remote + "']: Unknown remote `"@ + remote + "`"@
}

/// What is wrong with the groups of remotes: the message of the first
/// group, in the order of the configuration, that names a remote that is
/// not configured, with the first such remote.
pub open spec fn spec_groups_error(
    remotes: Seq<Seq<char>>,
    groups: Seq<BackupConfigRemoteGroup>,
) -> Option<Seq<char>>
    decreases groups.len(),
{
    if groups.len() == 0 {
        None
    } else {
        match spec_groups_error(remotes, groups.drop_last()) {
            Some(message) => Some(message),
            None => {
                let members = string_texts(groups.last().remotes@);
                if resolve_remotes(remotes, members) is None {
                    Some(
                        unknown_remote_message(
                            groups.last().name@,
                            first_unknown_remote(remotes, members),
                        ),
                    )
                } else {
                    None
                }
            },
        }
    }
}

/// An error of the first `k` groups is the error of all groups.
proof fn lemma_groups_error(remotes: Seq<Seq<char>>, groups: Seq<BackupConfigRemoteGroup>, k: int)
    requires
        0 <= k <= groups.len(),
        spec_groups_error(remotes, groups.take(k)) is Some,
    ensures
        spec_groups_error(remotes, groups) == spec_groups_error(remotes, groups.take(k)),
    decreases groups.len() - k,
{
    if k == groups.len() {
        assert(groups.take(k) == groups);
    } else {
        assert(groups.take(k + 1).drop_last() == groups.take(k));
        lemma_groups_error(remotes, groups, k + 1);
    }
}

impl BackupConfig {
    /// The place among `members` of the first name that names no
    /// configured remote.
    fn first_unknown(&self, members: &Vec<String>) -> (r: Option<usize>)
        ensures
            ({
                let names = remote_names(self.remotes@);
                match r {
                    Some(k) => k < members@.len() && resolve_remotes(names, string_texts(members@))
                        is None && first_unknown_remote(names, string_texts(members@))
                        == members@[k as int]@,
                    None => resolve_remotes(names, string_texts(members@)) is Some,
                }
            }),
    {
        let ghost names = remote_names(self.remotes@);
        let ghost texts = string_texts(members@);
        let mut i: usize = 0;
        while i < members.len()
            invariant
                i <= members.len(),
                names == remote_names(self.remotes@),
                texts == string_texts(members@),
                resolve_remotes(names, texts.take(i as int)) is Some,
            decreases members.len() - i,
        {
            proof {
                assert(texts.take(i + 1).drop_last() == texts.take(i as int));
                assert(texts.take(i + 1).last() == members@[i as int]@);
            }
            match self.remote(members[i].as_str()) {
                Ok(_) => {},
                Err(_) => {
                    proof {
                        lemma_first_unknown(names, texts, i + 1);
                    }
                    return Some(i);
                },
            }
            i += 1;
        }
        assert(texts.take(members.len() as int) == texts);
        None
    }

    /// Checks that every group of remotes names configured remotes only.
    /// The error tells of the first group that does not, and of the first
    /// remote it names that is not configured.
    pub fn validate_schema(&self) -> (r: Result<(), String>)
        ensures
            match r {
                Ok(_) => spec_groups_error(remote_names(self.remotes@), self.remote_groups@)
                    is None,
                Err(message) => spec_groups_error(remote_names(self.remotes@), self.remote_groups@)
                    == Some(message@),
            },
    {
        let ghost names = remote_names(self.remotes@);
        let mut i: usize = 0;
        while i < self.remote_groups.len()
            invariant
                i <= self.remote_groups.len(),
                names == remote_names(self.remotes@),
                spec_groups_error(names, self.remote_groups@.take(i as int)) is None,
            decreases self.remote_groups.len() - i,
        {
            let group = &self.remote_groups[i];
            proof {
                assert(self.remote_groups@.take(i + 1).drop_last() == self.remote_groups@.take(
                    i as int,
                ));
                assert(self.remote_groups@.take(i + 1).last() == *group);
            }
            match self.first_unknown(&group.remotes) {
                None => {},
                Some(k) => {
                    let mut out: Vec<char> = Vec::new();
                    push_str(&mut out, "remote_group['");
                    push_str(&mut out, group.name.as_str());
                    push_str(&mut out, "'].remote['");
                    push_str(&mut out, group.remotes[k].as_str());
                    push_str(&mut out, "']: Unknown remote `");
                    push_str(&mut out, group.remotes[k].as_str());
                    push_str(&mut out, "`");
                    assert(out@ =~= unknown_remote_message(group.name@, group.remotes@[k as int]@));
                    proof {
                        lemma_groups_error(names, self.remote_groups@, i + 1);
                    }
                    return Err(from_chars(&out));
                },
            }
            i += 1;
        }
        assert(self.remote_groups@.take(self.remote_groups.len() as int)
            == self.remote_groups@);
        Ok(())
    }

    /// The storage directory with the environment variables in its
    /// configured path filled in; `None` where one of them is not set.
    pub fn backup_storage_dir_path(&self) -> (r: Option<String>)
        ensures
            names_no_variable(self.backup_storage_dir@) ==> (r matches Some(path) && path@
                == self.backup_storage_dir@),
    {
        expand_path(self.backup_storage_dir.as_str())
    }

    /// The storage directory as a path of the storage tree.
    pub fn bak9_storage_dir(&self) -> (r: Option<Bak9Path>)
        ensures
            r matches Some(path) ==> path is StorageDir,
            names_no_variable(self.backup_storage_dir@) ==> (r matches Some(
                Bak9Path::StorageDir(path),
            ) && path@ == self.backup_storage_dir@),
    {
        match self.backup_storage_dir_path() {
            Some(path) => Some(Bak9Path::StorageDir(path)),
            None => None,
        }
    }
}

impl BackupConfigBackup {
    /// The directory to back up with the environment variables in its
    /// configured path filled in; `None` where one of them is not set.
    pub fn source_dir_path(&self) -> (r: Option<String>)
        ensures
            names_no_variable(self.source_dir@) ==> (r matches Some(path) && path@
                == self.source_dir@),
    {
        expand_path(self.source_dir.as_str())
    }
}

// ---------------------------------------------------------------------------
// The validity of a configuration
// ---------------------------------------------------------------------------

/// The first problem that `problem` finds with one of `items`, in their
/// order.
pub open spec fn first_problem<T>(items: Seq<T>, problem: spec_fn(T) -> Option<Seq<char>>) -> Option<
    Seq<char>,
>
    decreases items.len(),
{
    if items.len() == 0 {
        None
    } else {
        match first_problem(items.drop_last(), problem) {
            Some(message) => Some(message),
            None => problem(items.last()),
        }
    }
}

/// A problem with one of the first `k` items is the first problem of all.
pub proof fn lemma_first_problem<T>(
    items: Seq<T>,
    problem: spec_fn(T) -> Option<Seq<char>>,
    k: int,
)
    requires
        0 <= k <= items.len(),
        first_problem(items.take(k), problem) is Some,
    ensures
        first_problem(items, problem) == first_problem(items.take(k), problem),
    decreases items.len() - k,
{
    if k == items.len() {
        assert(items.take(k) == items);
    } else {
        assert(items.take(k + 1).drop_last() == items.take(k));
        lemma_first_problem(items, problem, k + 1);
    }
}

/// What is wrong with a schedule, told with its name.
pub open spec fn schedule_problem(schedule: BackupConfigSchedule) -> Option<Seq<char>> {
    match schedule@.conflict() {
        Some(message) => Some("schedule['"@ + schedule.name@ + "']: "@ + message),
        None => None,
    }
}

/// What is wrong with a sync rule.
pub open spec fn sync_problem(sync: BackupConfigSync) -> Option<Seq<char>> {
    sync.conflict()
}

/// What is wrong with a backup, told with its name: its name holds the
/// separator of run names, or one of its sync rules is wrong.
pub open spec fn backup_problem(backup: BackupConfigBackup) -> Option<Seq<char>> {
    if !no_separator(backup.name@) {
        Some("backup['"@ + backup.name@ + "'].name: must not contain `__`"@)
    } else {
        match first_problem(backup.syncs@, |sync: BackupConfigSync| sync_problem(sync)) {
            Some(message) => Some("backup['"@ + backup.name@ + "'].sync: "@ + message),
            None => None,
        }
    }
}

/// What is wrong with a configuration: the first problem of its groups of
/// remotes, else of its schedules, else of its backups.
pub open spec fn config_problem(config: &BackupConfig) -> Option<Seq<char>> {
    match spec_groups_error(remote_names(config.remotes@), config.remote_groups@) {
        Some(message) => Some("__all__: "@ + message),
        None => match first_problem(
            config.schedules@,
            |schedule: BackupConfigSchedule| schedule_problem(schedule),
        ) {
            Some(message) => Some(message),
            None => first_problem(
                config.backups@,
                |backup: BackupConfigBackup| backup_problem(backup),
            ),
        },
    }
}

impl BackupConfigBackup {
    /// Checks the backup: its name must not hold the separator of run
    /// names, and each of its sync rules must name a remote or a group.
    pub fn validate(&self) -> (r: Result<(), String>)
        ensures
            match r {
                Ok(_) => backup_problem(*self) is None,
                Err(message) => backup_problem(*self) == Some(message@),
            },
    {
        let chars = to_chars(self.name.as_str());
        let at = find_separator(&chars, 0);
        proof {
            lemma_first_separator_found(chars@, 0);
        }
        if at < chars.len() {
            assert(separator_at(self.name@, at as int));
            let mut out: Vec<char> = Vec::new();
            push_str(&mut out, "backup['");
            push_str(&mut out, self.name.as_str());
            push_str(&mut out, "'].name: must not contain `__`");
            assert(out@ =~= backup_problem(*self)->0);
            return Err(from_chars(&out));
        }
        assert(no_separator(self.name@)) by {
            assert forall|i: int| !separator_at(self.name@, i) by {
                if separator_at(self.name@, i) {
                    assert(0 <= i < chars@.len());
                }
            }
        }
        let ghost problem = |sync: BackupConfigSync| sync_problem(sync);
        let mut i: usize = 0;
        while i < self.syncs.len()
            invariant
                i <= self.syncs.len(),
                no_separator(self.name@),
                problem == |sync: BackupConfigSync| sync_problem(sync),
                first_problem(self.syncs@.take(i as int), problem) is None,
            decreases self.syncs.len() - i,
        {
            proof {
                assert(self.syncs@.take(i + 1).drop_last() == self.syncs@.take(i as int));
                assert(self.syncs@.take(i + 1).last() == self.syncs@[i as int]);
            }
            match self.syncs[i].validate_schema() {
                Ok(_) => {},
                Err(message) => {
                    proof {
                        lemma_first_problem(self.syncs@, problem, i + 1);
                    }
                    let mut out: Vec<char> = Vec::new();
                    push_str(&mut out, "backup['");
                    push_str(&mut out, self.name.as_str());
                    push_str(&mut out, "'].sync: ");
                    push_str(&mut out, message.as_str());
                    assert(out@ =~= backup_problem(*self)->0);
                    return Err(from_chars(&out));
                },
            }
            i += 1;
        }
        assert(self.syncs@.take(self.syncs.len() as int) == self.syncs@);
        Ok(())
    }
}

impl BackupConfig {
    /// Checks the whole configuration. The error tells of the first
    /// problem: of the groups of remotes, else of the schedules, else of
    /// the backups.
    pub fn validate(&self) -> (r: Result<(), Error>)
        ensures
            match r {
                Ok(_) => config_problem(self) is None,
                Err(e) => config_problem(self) matches Some(message) && e@
                    == (ErrorView::ConfigParse { cause: message }),
            },
    {
        match self.validate_schema() {
            Ok(_) => {},
            Err(message) => {
                let mut cause = String::from_str("__all__: ");
                cause.append(message.as_str());
                return Err(Error::ConfigParse { cause });
            },
        }
        let ghost of_schedule = |schedule: BackupConfigSchedule| schedule_problem(schedule);
        let mut i: usize = 0;
        while i < self.schedules.len()
            invariant
                i <= self.schedules.len(),
                of_schedule == |schedule: BackupConfigSchedule| schedule_problem(schedule),
                spec_groups_error(remote_names(self.remotes@), self.remote_groups@) is None,
                first_problem(self.schedules@.take(i as int), of_schedule) is None,
            decreases self.schedules.len() - i,
        {
            proof {
                assert(self.schedules@.take(i + 1).drop_last() == self.schedules@.take(i as int));
                assert(self.schedules@.take(i + 1).last() == self.schedules@[i as int]);
            }
            match self.schedules[i].validate_schema() {
                Ok(_) => {},
                Err(message) => {
                    proof {
                        lemma_first_problem(self.schedules@, of_schedule, i + 1);
                    }
                    let mut out: Vec<char> = Vec::new();
                    push_str(&mut out, "schedule['");
                    push_str(&mut out, self.schedules[i].name.as_str());
                    push_str(&mut out, "']: ");
                    push_str(&mut out, message.as_str());
                    assert(out@ =~= schedule_problem(self.schedules@[i as int])->0);
                    return Err(Error::ConfigParse { cause: from_chars(&out) });
                },
            }
            i += 1;
        }
        assert(self.schedules@.take(self.schedules.len() as int) == self.schedules@);
        let ghost of_backup = |backup: BackupConfigBackup| backup_problem(backup);
        let mut k: usize = 0;
        while k < self.backups.len()
            invariant
                k <= self.backups.len(),
                of_schedule == |schedule: BackupConfigSchedule| schedule_problem(schedule),
                of_backup == |backup: BackupConfigBackup| backup_problem(backup),
                spec_groups_error(remote_names(self.remotes@), self.remote_groups@) is None,
                first_problem(self.schedules@, of_schedule) is None,
                first_problem(self.backups@.take(k as int), of_backup) is None,
            decreases self.backups.len() - k,
        {
            proof {
                assert(self.backups@.take(k + 1).drop_last() == self.backups@.take(k as int));
                assert(self.backups@.take(k + 1).last() == self.backups@[k as int]);
            }
            match self.backups[k].validate() {
                Ok(_) => {},
                Err(message) => {
                    proof {
                        lemma_first_problem(self.backups@, of_backup, k + 1);
                    }
                    return Err(Error::ConfigParse { cause: message });
                },
            }
            k += 1;
        }
        assert(self.backups@.take(self.backups.len() as int) == self.backups@);
        Ok(())
    }
}

} // verus!
