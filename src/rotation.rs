use vstd::prelude::*;

use crate::clock::{now_utc, stamp_ok, Stamp};
use crate::level::LogType;
use crate::line::{format_record, record_line};
use crate::date::{dated_name, file_name, lemma_dated_name_injective, CalDate};

verus! {

/// Whether a log call on `today` must switch to a new file, given the date of
/// the active file (`None` before the first file).
pub open spec fn needs_roll(active: Option<CalDate>, today: CalDate) -> bool {
    active != Some(today)
}

/// Decides whether a log call on `today` must switch to a new file.
pub fn must_roll(active: Option<CalDate>, today: CalDate) -> (r: bool)
    ensures
        r == needs_roll(active, today),
{
    match active {
        None => true,
        Some(d) => !(d.year == today.year && d.month == today.month && d.day == today.day),
    }
}

/// The state of a log stream, seen as plain values.
pub struct LogStateView {
    pub app_name: Seq<char>,
    pub log_dir: Seq<char>,
    pub file_date: Option<CalDate>,
}

impl LogStateView {
    /// The date of the active file, where there is one, is a calendar date.
    pub open spec fn wf(self) -> bool {
        self.file_date matches Some(d) ==> d.wf()
    }
}

/// The file a log call on `today` must create, if it must create one.
pub open spec fn roll_target(s: LogStateView, today: CalDate) -> Option<Seq<char>> {
    if needs_roll(s.file_date, today) {
        Some(dated_name(s.app_name, today))
    } else {
        None
    }
}

/// The decisions of a log stream: its application name, its directory, and the
/// date of the file it writes to.
pub struct LogState {
    app_name: String,
    log_dir: String,
    file_date: Option<CalDate>,
}

impl View for LogState {
    type V = LogStateView;

    closed spec fn view(&self) -> LogStateView {
        LogStateView {
            app_name: self.app_name@,
            log_dir: self.log_dir@,
            file_date: self.file_date,
        }
    }
}

/// The date held, and the number of files created, after a log call on each
/// of `days` in turn, starting from the date `active`.
pub open spec fn run(active: Option<CalDate>, days: Seq<CalDate>) -> (Option<CalDate>, nat)
    decreases days.len(),
{
    if days.len() == 0 {
        (active, 0)
    } else {
        let prev = run(active, days.drop_last());
        let today = days.last();
        (Some(today), prev.1 + if needs_roll(prev.0, today) { 1nat } else { 0nat })
    }
}

/// Calls made on `xs` and then on `ys` are the calls on `xs` followed by those
/// on `ys` from the date that `xs` left.
pub proof fn lemma_runs_concat(active: Option<CalDate>, xs: Seq<CalDate>, ys: Seq<CalDate>)
    ensures
        run(active, xs + ys) == (
            run(run(active, xs).0, ys).0,
            run(active, xs).1 + run(run(active, xs).0, ys).1,
        ),
    decreases ys.len(),
{
    if ys.len() == 0 {
        assert(xs + ys =~= xs);
    } else {
        assert((xs + ys).drop_last() =~= xs + ys.drop_last());
        assert((xs + ys).last() == ys.last());
        lemma_runs_concat(active, xs, ys.drop_last());
    }
}

/// Log calls that all fall on the date of the active file create no file and
/// leave that date as it is.
pub proof fn lemma_same_day_keeps_file(d: CalDate, days: Seq<CalDate>)
    requires
        forall|i: int| 0 <= i < days.len() ==> days[i] == d,
    ensures
        run(Some(d), days) == (Some(d), 0nat),
    decreases days.len(),
{
    if days.len() > 0 {
        lemma_same_day_keeps_file(d, days.drop_last());
    }
}

/// A stream made on a date and then logged to any number of times on that
/// same date creates exactly one file, and its date never changes.
pub proof fn lemma_one_file_per_day(d: CalDate, days: Seq<CalDate>)
    requires
        forall|i: int| 0 <= i < days.len() ==> days[i] == d,
    ensures
        forall|k: int|
            1 <= k <= days.len() + 1 ==> #[trigger] run(None, (seq![d] + days).take(k)) == (
            Some(d),
            1nat,
            ),
{
    assert forall|k: int| 1 <= k <= days.len() + 1 implies #[trigger] run(
        None,
        (seq![d] + days).take(k),
    ) == (Some(d), 1nat) by {
        let all = (seq![d] + days).take(k);
        let rest = days.take(k - 1);
        assert(all =~= seq![d] + rest);
        lemma_runs_concat(None, seq![d], rest);
        assert(seq![d].drop_last() =~= Seq::<CalDate>::empty());
        assert(seq![d].last() == d);
        assert(run(None, Seq::<CalDate>::empty()) == (None::<CalDate>, 0nat));
        assert(run(None, seq![d]) == (Some(d), 1nat));
        lemma_same_day_keeps_file(d, rest);
    }
}

/// When the date moves on between two log calls, the second call creates the
/// new date's file, whose name differs from the old one's, and later calls on
/// the new date create no other file: they all write to the new one.
pub proof fn lemma_new_day_rolls(s: LogStateView, d2: CalDate, days: Seq<CalDate>)
    requires
        s.wf(),
        s.file_date is Some,
        d2.wf(),
        s.file_date != Some(d2),
        forall|i: int| 0 <= i < days.len() ==> days[i] == d2,
    ensures
        roll_target(s, d2) == Some(dated_name(s.app_name, d2)),
        dated_name(s.app_name, d2) != dated_name(s.app_name, s.file_date.unwrap()),
        run(s.file_date, seq![d2] + days) == (Some(d2), 1nat),
{
    if dated_name(s.app_name, d2) == dated_name(s.app_name, s.file_date.unwrap()) {
        lemma_dated_name_injective(s.app_name, d2, s.file_date.unwrap());
    }
    lemma_runs_concat(s.file_date, seq![d2], days);
    assert(seq![d2].drop_last() =~= Seq::<CalDate>::empty());
    assert(seq![d2].last() == d2);
    assert(run(s.file_date, Seq::<CalDate>::empty()) == (s.file_date, 0nat));
    lemma_same_day_keeps_file(d2, days);
}

impl LogState {
    /// A stream that has no file yet.
    pub fn new(app_name: &str, log_dir: &str) -> (r: LogState)
        ensures
            r@.app_name == app_name@,
            r@.log_dir == log_dir@,
            r@.file_date.is_none(),
            r@.wf(),
    {
        LogState {
            app_name: String::from_str(app_name),
            log_dir: String::from_str(log_dir),
            file_date: None,
        }
    }

    /// The application name that every file name starts with.
    pub fn app_name(&self) -> (r: &str)
        ensures
            r@ == self@.app_name,
    {
        self.app_name.as_str()
    }

    /// The directory that holds the files.
    pub fn log_dir(&self) -> (r: &str)
        ensures
            r@ == self@.log_dir,
    {
        self.log_dir.as_str()
    }

    /// The date of the active file.
    pub fn file_date(&self) -> (r: Option<CalDate>)
        ensures
            r == self@.file_date,
    {
        self.file_date
    }

    /// The name of the file that a log call on `today` must create, or `None`
    /// where the active file is still today's.
    pub fn rotation_target(&self, today: CalDate) -> (r: Option<String>)
        ensures
            match r {
                Some(n) => roll_target(self@, today) == Some(n@),
                None => roll_target(self@, today).is_none(),
            },
    {
        if must_roll(self.file_date, today) {
            Some(file_name(self.app_name.as_str(), today))
        } else {
            None
        }
    }

    /// Prepares a log call: reads the UTC clock once and returns that reading,
    /// the name of the file to create first where the reading's date calls for
    /// one, and the line to write, stamped with the reading's text. `None` where
    /// the clock cannot be read as a date.
    pub fn prepare(&self, level: LogType, msg: &str) -> (r: Option<(Stamp, Option<String>, String)>)
        ensures
            r matches Some((st, target, line)) ==> {
                &&& stamp_ok(st.date, st.text@)
                &&& match target {
                    Some(n) => roll_target(self@, st.date) == Some(n@),
                    None => roll_target(self@, st.date).is_none(),
                }
                &&& line@ == record_line(st.text@, level, msg@)
            },
    {
        match now_utc() {
            None => None,
            Some(st) => {
                let target = self.rotation_target(st.date);
                let line = format_record(st.text.as_str(), level, msg);
                Some((st, target, line))
            },
        }
    }

    /// Makes the file of `today` the active one, once it has been created.
    pub fn commit(&mut self, today: CalDate)
        requires
            today.wf(),
        ensures
            final(self)@.wf(),
            final(self)@.app_name == old(self)@.app_name,
            final(self)@.log_dir == old(self)@.log_dir,
            final(self)@.file_date == Some(today),
    {
        self.file_date = Some(today);
    }
}

} // verus!
