//! The time-series store: a date-indexed table of per-application
//! minute counters with a dynamic column set, plus a settings mapping
//! and per-application notification thresholds.
//!
//! The store is modelled as plain data — a registry of column names
//! and one value row per date — and every operation on it is verified.
//! Persisting the store is left to the surrounding program, which
//! loads it through [`Store::from_parts`] and reads the fields back.

use vstd::prelude::*;
use crate::dates::{Date, DAY_MAX, DAY_MIN};
use crate::strutil::str_eq;
use crate::numfmt::{all_digits, dec_digits, dec_string, dec_val, parse_u16};
use crate::timefmt::{time_chars, Time};

verus! {

broadcast use vstd::string::group_string_axioms;

/// The name of the session pseudo-application: always tracked, always
/// counted, never removable.
pub const SCREENTIME: &'static str = "pc";

/// The name of the date key, which can never be a tracked application.
pub const DATE_KEY: &'static str = "date";

/// Rejections of store operations.
#[derive(Clone, Copy, Debug, PartialEq, Eq, Structural)]
pub enum StoreError {
    /// The application is already tracked (or is the date key).
    DuplicateColumn,
    /// The date key and the session pseudo-application cannot be
    /// removed.
    ProtectedColumn,
    /// The application is not tracked.
    UnknownColumn,
    /// The queried application is not tracked.
    NotFound,
}

/// One row of the table: a date and one minute counter per tracked
/// application, in registry order.
pub struct DailyRecord {
    pub date: Date,
    pub values: Vec<u16>,
}

/// One entry of a query result: an application's counter on one date,
/// with the split duration for display.
#[derive(Debug)]
pub struct TimeApp {
    pub name: String,
    pub time: Time,
    pub date: Date,
    pub min_total: u16,
}

impl TimeApp {
    /// Builds an entry from a name, a date and a minute count.
    pub fn new(name: String, date: Date, mins: u16) -> (r: TimeApp)
        ensures
            r.name == name,
            r.date == date,
            r.min_total == mins,
            r.time.wf(),
            r.time.minutes() == mins,
            r.time.hour == mins as int / 60,
            r.time.min == mins as int % 60,
    {
        TimeApp { name, time: Time::new(mins as u64), date, min_total: mins }
    }
}

/// The store: tracked columns, date rows, settings and notification
/// thresholds.
pub struct Store {
    pub columns: Vec<String>,
    pub rows: Vec<DailyRecord>,
    pub settings: Vec<(String, String)>,
    pub notifications: Vec<(String, u16)>,
}

impl Store {
    /// Whether `name` is a tracked column.
    pub open spec fn is_tracked(self, name: Seq<char>) -> bool {
        exists|i: int| 0 <= i < self.columns@.len() && (#[trigger] self.columns@[i])@ == name
    }

    /// The registry index of tracked column `name`.
    pub open spec fn col_of(self, name: Seq<char>) -> int {
        choose|i: int| 0 <= i < self.columns@.len() && (#[trigger] self.columns@[i])@ == name
    }

    /// Whether some row carries the date with day number `day`.
    pub open spec fn has_row(self, day: int) -> bool {
        exists|i: int| 0 <= i < self.rows@.len() && (#[trigger] self.rows@[i]).date.days == day
    }

    /// The index of the row for `day`.
    pub open spec fn row_of(self, day: int) -> int {
        choose|i: int| 0 <= i < self.rows@.len() && (#[trigger] self.rows@[i]).date.days == day
    }

    /// The stored minute counter of column `col` on `day`: the row's
    /// value when the day has a row, and zero otherwise.
    pub open spec fn minutes_on(self, day: int, col: int) -> int {
        if self.has_row(day) {
            self.rows@[self.row_of(day)].values@[col] as int
        } else {
            0
        }
    }

    /// Whether the settings hold a value for `key`.
    pub open spec fn has_setting(self, key: Seq<char>) -> bool {
        exists|i: int| 0 <= i < self.settings@.len() && (#[trigger] self.settings@[i]).0@ == key
    }

    /// The value stored for settings `key`, if any.
    pub open spec fn setting_of(self, key: Seq<char>) -> Option<Seq<char>> {
        if self.has_setting(key) {
            Some(
                self.settings@[choose|i: int|
                    0 <= i < self.settings@.len() && (#[trigger] self.settings@[i]).0@ == key].1@,
            )
        } else {
            None
        }
    }

    /// Whether a notification threshold is set for `name`.
    pub open spec fn has_notif(self, name: Seq<char>) -> bool {
        exists|i: int|
            0 <= i < self.notifications@.len() && (#[trigger] self.notifications@[i]).0@ == name
    }

    /// The notification threshold set for `name`, if any.
    pub open spec fn notif_of(self, name: Seq<char>) -> Option<u16> {
        if self.has_notif(name) {
            Some(
                self.notifications@[choose|i: int|
                    0 <= i < self.notifications@.len() && (#[trigger] self.notifications@[i]).0@
                        == name].1,
            )
        } else {
            None
        }
    }

    /// Well-formedness: the session column comes first, column names
    /// are unique and never the date key, every row spans the columns
    /// exactly and dates, settings keys and notification names are
    /// unique.
    pub open spec fn wf(self) -> bool {
        &&& self.columns@.len() >= 1
        &&& self.columns@[0]@ == SCREENTIME@
        &&& (forall|i: int, j: int|
            0 <= i < j < self.columns@.len() ==> (#[trigger] self.columns@[i])@ != (
            #[trigger] self.columns@[j])@)
        &&& (forall|i: int| 0 <= i < self.columns@.len() ==> (#[trigger] self.columns@[i])@ != DATE_KEY@)
        &&& (forall|i: int|
            0 <= i < self.rows@.len() ==> (#[trigger] self.rows@[i]).values@.len()
                == self.columns@.len() && self.rows@[i].date.wf())
        &&& (forall|i: int, j: int|
            0 <= i < j < self.rows@.len() ==> (#[trigger] self.rows@[i]).date.days != (
            #[trigger] self.rows@[j]).date.days)
        &&& (forall|i: int, j: int|
            0 <= i < j < self.settings@.len() ==> (#[trigger] self.settings@[i]).0@ != (
            #[trigger] self.settings@[j]).0@)
        &&& (forall|i: int, j: int|
            0 <= i < j < self.notifications@.len() ==> (#[trigger] self.notifications@[i]).0@ != (
            #[trigger] self.notifications@[j]).0@)
    }

    /// A fresh store: only the session column, no rows, no settings,
    /// no thresholds.
    pub fn new() -> (r: Store)
        ensures
            r.wf(),
            r.columns@.len() == 1,
            r.columns@[0]@ == SCREENTIME@,
            r.rows@.len() == 0,
            r.settings@.len() == 0,
            r.notifications@.len() == 0,
    {
        let mut columns: Vec<String> = Vec::new();
        columns.push(String::from_str(SCREENTIME));
        proof {
            broadcast use vstd::string::group_string_axioms;

            reveal_strlit("pc");
            reveal_strlit("date");
            assert("pc"@.len() == 2);
            assert("date"@.len() == 4);
            assert("pc"@ != "date"@);
            assert(SCREENTIME@ == "pc"@);
            assert(DATE_KEY@ == "date"@);
        }
        Store { columns, rows: Vec::new(), settings: Vec::new(), notifications: Vec::new() }
    }

    /// Rebuilds a store from its four persisted parts, validating
    /// well-formedness; yields nothing exactly when the parts violate
    /// it, which signals corrupted persisted state.
    #[verifier::loop_isolation(false)]
    pub fn from_parts(
        columns: Vec<String>,
        rows: Vec<DailyRecord>,
        settings: Vec<(String, String)>,
        notifications: Vec<(String, u16)>,
    ) -> (r: Option<Store>)
        ensures
            r is Some <==> (Store { columns, rows, settings, notifications }).wf(),
            r is Some ==> r->0 == (Store { columns, rows, settings, notifications }),
    {
        let s = Store { columns, rows, settings, notifications };
        let cn = s.columns.len();
        if cn == 0 {
            return None;
        }
        if !str_eq(s.columns[0].as_str(), SCREENTIME) {
            return None;
        }
        let mut i: usize = 0;
        while i < cn
            invariant
                cn == s.columns@.len(),
                0 <= i <= cn,
                forall|a: int| 0 <= a < i ==> (#[trigger] s.columns@[a])@ != DATE_KEY@,
                forall|a: int, b: int|
                    0 <= a < b < cn && a < i ==> (#[trigger] s.columns@[a])@ != (
                    #[trigger] s.columns@[b])@,
            decreases cn - i,
        {
            if str_eq(s.columns[i].as_str(), DATE_KEY) {
                return None;
            }
            let mut j: usize = i + 1;
            while j < cn
                invariant
                    cn == s.columns@.len(),
                    0 <= i < j <= cn,
                    forall|b: int| i < b < j ==> (#[trigger] s.columns@[b])@ != s.columns@[i as int]@,
                decreases cn - j,
            {
                if str_eq(s.columns[i].as_str(), s.columns[j].as_str()) {
                    return None;
                }
                j = j + 1;
            }
            i = i + 1;
        }
        let rn = s.rows.len();
        let mut i: usize = 0;
        while i < rn
            invariant
                rn == s.rows@.len(),
                cn == s.columns@.len(),
                0 <= i <= rn,
                forall|a: int|
                    0 <= a < i ==> (#[trigger] s.rows@[a]).values@.len() == cn
                        && s.rows@[a].date.wf(),
                forall|a: int, b: int|
                    0 <= a < b < rn && a < i ==> (#[trigger] s.rows@[a]).date.days != (
                    #[trigger] s.rows@[b]).date.days,
            decreases rn - i,
        {
            if s.rows[i].values.len() != cn {
                return None;
            }
            if s.rows[i].date.days < DAY_MIN || s.rows[i].date.days > DAY_MAX {
                return None;
            }
            let mut j: usize = i + 1;
            while j < rn
                invariant
                    rn == s.rows@.len(),
                    0 <= i < j <= rn,
                    forall|b: int|
                        i < b < j ==> (#[trigger] s.rows@[b]).date.days != s.rows@[i as int].date.days,
                decreases rn - j,
            {
                if s.rows[i].date.days == s.rows[j].date.days {
                    return None;
                }
                j = j + 1;
            }
            i = i + 1;
        }
        let sn = s.settings.len();
        let mut i: usize = 0;
        while i < sn
            invariant
                sn == s.settings@.len(),
                0 <= i <= sn,
                forall|a: int, b: int|
                    0 <= a < b < sn && a < i ==> (#[trigger] s.settings@[a]).0@ != (
                    #[trigger] s.settings@[b]).0@,
            decreases sn - i,
        {
            let mut j: usize = i + 1;
            while j < sn
                invariant
                    sn == s.settings@.len(),
                    0 <= i < j <= sn,
                    forall|b: int|
                        i < b < j ==> (#[trigger] s.settings@[b]).0@ != s.settings@[i as int].0@,
                decreases sn - j,
            {
                if str_eq(s.settings[i].0.as_str(), s.settings[j].0.as_str()) {
                    return None;
                }
                j = j + 1;
            }
            i = i + 1;
        }
        let nn = s.notifications.len();
        let mut i: usize = 0;
        while i < nn
            invariant
                nn == s.notifications@.len(),
                0 <= i <= nn,
                forall|a: int, b: int|
                    0 <= a < b < nn && a < i ==> (#[trigger] s.notifications@[a]).0@ != (
                    #[trigger] s.notifications@[b]).0@,
            decreases nn - i,
        {
            let mut j: usize = i + 1;
            while j < nn
                invariant
                    nn == s.notifications@.len(),
                    0 <= i < j <= nn,
                    forall|b: int|
                        i < b < j ==> (#[trigger] s.notifications@[b]).0@ != s.notifications@[i as int].0@,
                decreases nn - j,
            {
                if str_eq(s.notifications[i].0.as_str(), s.notifications[j].0.as_str()) {
                    return None;
                }
                j = j + 1;
            }
            i = i + 1;
        }
        Some(s)
    }

    /// A settings entry at a known index is what `setting_of` yields.
    proof fn lemma_setting_lookup(self, k: Seq<char>, i: int)
        requires
            self.wf(),
            0 <= i < self.settings@.len(),
            self.settings@[i].0@ == k,
        ensures
            self.has_setting(k),
            self.setting_of(k) == Some(self.settings@[i].1@),
    {
        assert(self.has_setting(k));
        let j = choose|j: int|
            0 <= j < self.settings@.len() && (#[trigger] self.settings@[j]).0@ == k;
        if j < i {
            assert(self.settings@[j].0@ != self.settings@[i].0@);
        } else if i < j {
            assert(self.settings@[i].0@ != self.settings@[j].0@);
        }
    }

    /// A notification entry at a known index is what `notif_of` yields.
    proof fn lemma_notif_lookup(self, name: Seq<char>, i: int)
        requires
            self.wf(),
            0 <= i < self.notifications@.len(),
            self.notifications@[i].0@ == name,
        ensures
            self.has_notif(name),
            self.notif_of(name) == Some(self.notifications@[i].1),
    {
        assert(self.has_notif(name));
        let j = choose|j: int|
            0 <= j < self.notifications@.len() && (#[trigger] self.notifications@[j]).0@ == name;
        if j < i {
            assert(self.notifications@[j].0@ != self.notifications@[i].0@);
        } else if i < j {
            assert(self.notifications@[i].0@ != self.notifications@[j].0@);
        }
    }

    /// A row at a known index is the row `row_of` finds for its date.
    proof fn lemma_row_lookup(self, day: int, i: int)
        requires
            self.wf(),
            0 <= i < self.rows@.len(),
            self.rows@[i].date.days == day,
        ensures
            self.has_row(day),
            self.row_of(day) == i,
    {
        assert(self.has_row(day));
        let j = choose|j: int|
            0 <= j < self.rows@.len() && (#[trigger] self.rows@[j]).date.days == day;
        if j < i {
            assert(self.rows@[j].date.days != self.rows@[i].date.days);
        } else if i < j {
            assert(self.rows@[i].date.days != self.rows@[j].date.days);
        }
    }

    /// A tracked column at a known index is the one `col_of` finds.
    proof fn lemma_col_lookup(self, name: Seq<char>, i: int)
        requires
            self.wf(),
            0 <= i < self.columns@.len(),
            self.columns@[i]@ == name,
        ensures
            self.is_tracked(name),
            self.col_of(name) == i,
    {
        assert(self.is_tracked(name));
        let j = choose|j: int|
            0 <= j < self.columns@.len() && (#[trigger] self.columns@[j])@ == name;
        if j < i {
            assert(self.columns@[j]@ != self.columns@[i]@);
        } else if i < j {
            assert(self.columns@[i]@ != self.columns@[j]@);
        }
    }

    /// The registry index of `name`, if it is tracked.
    fn find_col(&self, name: &str) -> (r: Option<usize>)
        ensures
            r is Some <==> self.is_tracked(name@),
            r is Some ==> 0 <= r->0 < self.columns@.len() && self.columns@[r->0 as int]@ == name@,
    {
        let n = self.columns.len();
        let mut i: usize = 0;
        while i < n
            invariant
                n == self.columns@.len(),
                0 <= i <= n,
                forall|k: int| 0 <= k < i ==> (#[trigger] self.columns@[k])@ != name@,
            decreases n - i,
        {
            if str_eq(self.columns[i].as_str(), name) {
                return Some(i);
            }
            i = i + 1;
        }
        None
    }

    /// Whether `name` is a tracked column.
    pub fn contain_names(&self, name: &str) -> (r: bool)
        ensures
            r == self.is_tracked(name@),
    {
        self.find_col(name).is_some()
    }

    /// The tracked column names, in registry order.
    pub fn get_column_name(&self) -> (r: Vec<String>)
        ensures
            r@.len() == self.columns@.len(),
            forall|i: int| 0 <= i < r@.len() ==> (#[trigger] r@[i])@ == self.columns@[i]@,
    {
        let n = self.columns.len();
        let mut r: Vec<String> = Vec::new();
        let mut i: usize = 0;
        while i < n
            invariant
                n == self.columns@.len(),
                0 <= i <= n,
                r@.len() == i,
                forall|k: int| 0 <= k < i ==> (#[trigger] r@[k])@ == self.columns@[k]@,
            decreases n - i,
        {
            r.push(self.columns[i].clone());
            i = i + 1;
        }
        r
    }

    /// The effective sampling state: the stored `state` value, or `on`
    /// when none is stored.
    pub open spec fn state_of(self) -> Seq<char> {
        match self.setting_of("state"@) {
            Some(v) => v,
            None => "on"@,
        }
    }

    /// The effective retention window in days: the stored
    /// `storage_size` value if it parses as a decimal `u16`, and 28
    /// otherwise.
    pub open spec fn storage_size_of(self) -> int {
        match self.setting_of("storage_size"@) {
            Some(v) => if v.len() > 0 && all_digits(v) && dec_val(v) <= u16::MAX {
                dec_val(v)
            } else {
                28
            },
            None => 28,
        }
    }

    /// The index of the settings entry for `name`, if one is stored.
    fn find_setting(&self, name: &str) -> (r: Option<usize>)
        requires
            self.wf(),
        ensures
            r is Some <==> self.has_setting(name@),
            r is Some ==> 0 <= r->0 < self.settings@.len() && self.settings@[r->0 as int].0@
                == name@ && self.setting_of(name@) == Some(self.settings@[r->0 as int].1@),
    {
        let n = self.settings.len();
        let mut i: usize = 0;
        while i < n
            invariant
                self.wf(),
                n == self.settings@.len(),
                0 <= i <= n,
                forall|k: int| 0 <= k < i ==> (#[trigger] self.settings@[k]).0@ != name@,
            decreases n - i,
        {
            if str_eq(self.settings[i].0.as_str(), name) {
                proof {
                    self.lemma_setting_lookup(name@, i as int);
                }
                return Some(i);
            }
            i = i + 1;
        }
        None
    }

    /// The stored settings value for `name`, if any.
    pub fn get_attribute(&self, name: &str) -> (r: Option<String>)
        requires
            self.wf(),
        ensures
            r is Some <==> self.setting_of(name@) is Some,
            r is Some ==> Some(r->0@) == self.setting_of(name@),
    {
        match self.find_setting(name) {
            Some(i) => Some(self.settings[i].1.clone()),
            None => None,
        }
    }

    /// Stores `value` under `name`, replacing any previous value and
    /// leaving every other attribute unchanged.
    pub fn change_settings(&mut self, name: &str, value: &str)
        requires
            old(self).wf(),
        ensures
            final(self).wf(),
            forall|k: Seq<char>|
                #[trigger] final(self).setting_of(k) == if k == name@ {
                    Some(value@)
                } else {
                    old(self).setting_of(k)
                },
            final(self).columns == old(self).columns,
            final(self).rows == old(self).rows,
            final(self).notifications == old(self).notifications,
    {
        let found = self.find_setting(name);
        let ghost mid = *self;
        if let Some(i) = found {
            self.settings.remove(i);
            proof {
                assert forall|a: int, b: int| 0 <= a < b < self.settings@.len() implies (
                #[trigger] self.settings@[a]).0@ != (#[trigger] self.settings@[b]).0@ by {
                    let a0 = if a < i { a } else { a + 1 };
                    let b0 = if b < i { b } else { b + 1 };
                    assert(self.settings@[a] == old(self).settings@[a0]);
                    assert(self.settings@[b] == old(self).settings@[b0]);
                }
                assert forall|k: int| 0 <= k < self.settings@.len() implies (
                #[trigger] self.settings@[k]).0@ != name@ by {
                    let k0 = if k < i { k } else { k + 1 };
                    assert(self.settings@[k] == old(self).settings@[k0]);
                    if k0 != i {
                        if k0 < i {
                            assert(old(self).settings@[k0].0@ != old(self).settings@[i as int].0@);
                        } else {
                            assert(old(self).settings@[i as int].0@ != old(self).settings@[k0].0@);
                        }
                    }
                }
            }
        }
        let ghost pruned = *self;
        self.settings.push((String::from_str(name), String::from_str(value)));
        proof {
            let s = *self;
            let m = s.settings@.len() - 1;
            assert(forall|k: int| 0 <= k < m ==> s.settings@[k] == pruned.settings@[k]);
            assert(forall|k: int| 0 <= k < m ==> (#[trigger] s.settings@[k]).0@ != name@);
            assert(s.wf());
            s.lemma_setting_lookup(name@, m);
            assert forall|k: Seq<char>|
                #[trigger] s.setting_of(k) == if k == name@ {
                    Some(value@)
                } else {
                    old(self).setting_of(k)
                } by {
                if k != name@ {
                    if s.has_setting(k) {
                        let j = choose|j: int|
                            0 <= j < s.settings@.len() && (#[trigger] s.settings@[j]).0@ == k;
                        assert(j != m);
                        let j0 = if found is Some && j >= found->0 { j + 1 } else { j };
                        assert(old(self).settings@[j0] == s.settings@[j]);
                        old(self).lemma_setting_lookup(k, j0);
                        s.lemma_setting_lookup(k, j);
                    } else if old(self).has_setting(k) {
                        let j0 = choose|j: int|
                            0 <= j < old(self).settings@.len() && (
                            #[trigger] old(self).settings@[j]).0@ == k;
                        if found is Some {
                            let i = found->0 as int;
                            assert(j0 != i);
                            let j = if j0 < i { j0 } else { j0 - 1 };
                            assert(s.settings@[j] == old(self).settings@[j0]);
                            assert(s.has_setting(k));
                        } else {
                            assert(s.settings@[j0] == old(self).settings@[j0]);
                            assert(s.has_setting(k));
                        }
                    }
                }
            }
        }
    }

    /// Flips the sampling state: an explicit `on` becomes `off`, and
    /// anything else (including no stored state) becomes `on`.
    pub fn switch_state(&mut self)
        requires
            old(self).wf(),
        ensures
            final(self).wf(),
            forall|k: Seq<char>|
                #[trigger] final(self).setting_of(k) == if k == "state"@ {
                    Some(
                        if old(self).setting_of("state"@) == Some("on"@) {
                            "off"@
                        } else {
                            "on"@
                        },
                    )
                } else {
                    old(self).setting_of(k)
                },
            final(self).columns == old(self).columns,
            final(self).rows == old(self).rows,
            final(self).notifications == old(self).notifications,
    {
        let current = self.get_attribute("state");
        let is_on = match &current {
            Some(v) => str_eq(v.as_str(), "on"),
            None => false,
        };
        if is_on {
            self.change_settings("state", "off");
        } else {
            self.change_settings("state", "on");
        }
    }

    /// The effective settings: the sampling state and the retention
    /// window, with their defaults filled in.
    pub fn get_settings(&self) -> (r: Settings)
        requires
            self.wf(),
        ensures
            r.state@ == self.state_of(),
            r.storage_size as int == self.storage_size_of(),
    {
        let state = match self.get_attribute("state") {
            Some(v) => v,
            None => String::from_str("on"),
        };
        let storage_size: u16 = match self.get_attribute("storage_size") {
            Some(v) => match parse_u16(v.as_str()) {
                Some(n) => n,
                None => 28,
            },
            None => 28,
        };
        Settings { state, storage_size }
    }

    /// The index of the notification entry for `name`, if one is set.
    fn find_notif(&self, name: &str) -> (r: Option<usize>)
        requires
            self.wf(),
        ensures
            r is Some <==> self.has_notif(name@),
            r is None ==> forall|k: int|
                0 <= k < self.notifications@.len() ==> (#[trigger] self.notifications@[k]).0@
                    != name@,
            r is Some ==> 0 <= r->0 < self.notifications@.len() && self.notifications@[r->0 as int].0@
                == name@ && self.notif_of(name@) == Some(self.notifications@[r->0 as int].1),
    {
        let n = self.notifications.len();
        let mut i: usize = 0;
        while i < n
            invariant
                self.wf(),
                n == self.notifications@.len(),
                0 <= i <= n,
                forall|k: int| 0 <= k < i ==> (#[trigger] self.notifications@[k]).0@ != name@,
            decreases n - i,
        {
            if str_eq(self.notifications[i].0.as_str(), name) {
                proof {
                    self.lemma_notif_lookup(name@, i as int);
                }
                return Some(i);
            }
            i = i + 1;
        }
        None
    }

    /// Deletes the notification threshold for `name`, if one is set;
    /// everything else is untouched.
    pub fn del_notif(&mut self, name: &str)
        requires
            old(self).wf(),
        ensures
            final(self).wf(),
            forall|k: Seq<char>|
                #[trigger] final(self).notif_of(k) == if k == name@ {
                    None::<u16>
                } else {
                    old(self).notif_of(k)
                },
            final(self).columns == old(self).columns,
            final(self).rows == old(self).rows,
            final(self).settings == old(self).settings,
    {
        let found = self.find_notif(name);
        match found {
            None => {
                proof {
                    assert forall|k: Seq<char>|
                        #[trigger] self.notif_of(k) == if k == name@ {
                            None::<u16>
                        } else {
                            old(self).notif_of(k)
                        } by {}
                }
            },
            Some(fi) => {
                proof {
                    self.lemma_notif_lookup(name@, fi as int);
                }
                self.notifications.remove(fi);
                proof {
                    let s = *self;
                    let pre = *old(self);
                    assert forall|a: int, b: int|
                        0 <= a < b < s.notifications@.len() implies (
                    #[trigger] s.notifications@[a]).0@ != (#[trigger] s.notifications@[b]).0@ by {
                        let a0 = if a < fi { a } else { a + 1 };
                        let b0 = if b < fi { b } else { b + 1 };
                        assert(s.notifications@[a] == pre.notifications@[a0]);
                        assert(s.notifications@[b] == pre.notifications@[b0]);
                    }
                    assert forall|k: Seq<char>|
                        #[trigger] s.notif_of(k) == if k == name@ {
                            None::<u16>
                        } else {
                            pre.notif_of(k)
                        } by {
                        if k == name@ {
                            if s.has_notif(k) {
                                let j = choose|j: int|
                                    0 <= j < s.notifications@.len() && (
                                    #[trigger] s.notifications@[j]).0@ == k;
                                let j0 = if j < fi { j } else { j + 1 };
                                assert(s.notifications@[j] == pre.notifications@[j0]);
                                assert(j0 != fi);
                                if j0 < fi {
                                    assert(pre.notifications@[j0].0@ != pre.notifications@[fi as int].0@);
                                } else {
                                    assert(pre.notifications@[fi as int].0@ != pre.notifications@[j0].0@);
                                }
                            }
                        } else {
                            if s.has_notif(k) {
                                let j = choose|j: int|
                                    0 <= j < s.notifications@.len() && (
                                    #[trigger] s.notifications@[j]).0@ == k;
                                let j0 = if j < fi { j } else { j + 1 };
                                assert(s.notifications@[j] == pre.notifications@[j0]);
                                pre.lemma_notif_lookup(k, j0);
                                s.lemma_notif_lookup(k, j);
                            } else if pre.has_notif(k) {
                                let j0 = choose|j: int|
                                    0 <= j < pre.notifications@.len() && (
                                    #[trigger] pre.notifications@[j]).0@ == k;
                                assert(j0 != fi);
                                let j = if j0 < fi { j0 } else { j0 - 1 };
                                assert(s.notifications@[j] == pre.notifications@[j0]);
                                assert(s.has_notif(k));
                            }
                        }
                    }
                }
            },
        }
    }

    /// Sets the notification threshold for tracked application `name`
    /// to `time` minutes, replacing any previous threshold; fails with
    /// `NotFound` when `name` is not tracked.
    pub fn add_notif(&mut self, name: &str, time: u16) -> (r: Result<(), StoreError>)
        requires
            old(self).wf(),
        ensures
            final(self).wf(),
            r is Ok <==> old(self).is_tracked(name@),
            r is Err ==> r == Err::<(), StoreError>(StoreError::NotFound) && *final(self) == *old(
                self,
            ),
            r is Ok ==> forall|k: Seq<char>|
                #[trigger] final(self).notif_of(k) == if k == name@ {
                    Some(time)
                } else {
                    old(self).notif_of(k)
                },
            final(self).columns == old(self).columns,
            final(self).rows == old(self).rows,
            final(self).settings == old(self).settings,
    {
        if !self.contain_names(name) {
            return Err(StoreError::NotFound);
        }
        self.del_notif(name);
        let ghost pruned = *self;
        self.notifications.push((String::from_str(name), time));
        proof {
            let s = *self;
            let m = s.notifications@.len() - 1;
            assert forall|k: int| 0 <= k < m implies (#[trigger] s.notifications@[k]).0@
                != name@ by {
                assert(s.notifications@[k] == pruned.notifications@[k]);
                assert(pruned.notif_of(name@) is None);
                if pruned.notifications@[k].0@ == name@ {
                    pruned.lemma_notif_lookup(name@, k);
                }
            }
            assert(s.wf());
            s.lemma_notif_lookup(name@, m);
            assert forall|k: Seq<char>|
                #[trigger] s.notif_of(k) == if k == name@ {
                    Some(time)
                } else {
                    old(self).notif_of(k)
                } by {
                if k == name@ {
                    assert(s.notif_of(k) == Some(time));
                } else {
                    assert(pruned.notif_of(k) == old(self).notif_of(k));
                    if s.has_notif(k) {
                        let j = choose|j: int|
                            0 <= j < s.notifications@.len() && (#[trigger] s.notifications@[j]).0@
                                == k;
                        assert(j != m);
                        assert(s.notifications@[j] == pruned.notifications@[j]);
                        pruned.lemma_notif_lookup(k, j);
                        s.lemma_notif_lookup(k, j);
                    } else if pruned.has_notif(k) {
                        let j = choose|j: int|
                            0 <= j < pruned.notifications@.len() && (
                            #[trigger] pruned.notifications@[j]).0@ == k;
                        assert(s.notifications@[j] == pruned.notifications@[j]);
                        assert(s.has_notif(k));
                    }
                }
            }
        }
        Ok(())
    }

    /// Starts tracking application `name`: adds its column with a zero
    /// counter on every existing row.  Fails with `DuplicateColumn`
    /// when the name is already tracked or is the date key.
    pub fn add_app(&mut self, name: &str) -> (r: Result<(), StoreError>)
        requires
            old(self).wf(),
        ensures
            final(self).wf(),
            r is Ok <==> name@ != DATE_KEY@ && !old(self).is_tracked(name@),
            r is Err ==> r == Err::<(), StoreError>(StoreError::DuplicateColumn) && *final(self)
                == *old(self),
            r is Ok ==> add_app_rel(*old(self), *final(self), name@),
            r is Ok ==> final(self).is_tracked(name@) && final(self).col_of(name@) == old(
                self,
            ).columns@.len(),
    {
        if str_eq(name, DATE_KEY) || self.contain_names(name) {
            return Err(StoreError::DuplicateColumn);
        }
        self.columns.push(String::from_str(name));
        let ghost orig = old(self).rows@;
        let ghost cols_mid = self.columns@;
        let mut updated: Vec<DailyRecord> = Vec::new();
        while self.rows.len() > 0
            invariant
                self.columns@ == cols_mid,
                self.settings == old(self).settings,
                self.notifications == old(self).notifications,
                updated@.len() + self.rows@.len() == orig.len(),
                forall|j: int|
                    0 <= j < self.rows@.len() ==> #[trigger] self.rows@[j] == orig[updated@.len()
                        + j],
                forall|j: int|
                    0 <= j < updated@.len() ==> (#[trigger] updated@[j]).date == orig[j].date
                        && updated@[j].values@ == orig[j].values@.push(0),
            decreases self.rows@.len(),
    {
            let mut rec = self.rows.remove(0);
            rec.values.push(0);
            updated.push(rec);
        }
        self.rows = updated;
        proof {
            let s = *self;
            let pre = *old(self);
            let m = s.columns@.len() - 1;
            assert(add_app_rel(pre, s, name@));
            assert forall|a: int, b: int| 0 <= a < b < s.columns@.len() implies (
            #[trigger] s.columns@[a])@ != (#[trigger] s.columns@[b])@ by {
                if b == m && s.columns@[a]@ == name@ {
                    assert(pre.is_tracked(name@));
                }
            }
            assert(s.wf());
            s.lemma_col_lookup(name@, m);
        }
        Ok(())
    }

    /// Stops tracking application `name`: removes its column, its
    /// counters on every row, and its notification threshold.  Fails
    /// with `ProtectedColumn` for the date key and the session
    /// pseudo-application, and with `UnknownColumn` when the name is
    /// not tracked.
    pub fn del_app(&mut self, name: &str) -> (r: Result<(), StoreError>)
        requires
            old(self).wf(),
        ensures
            final(self).wf(),
            r is Ok <==> name@ != DATE_KEY@ && name@ != SCREENTIME@ && old(self).is_tracked(name@),
            r == Err::<(), StoreError>(StoreError::ProtectedColumn) <==> name@ == DATE_KEY@ || name@
                == SCREENTIME@,
            r is Err ==> *final(self) == *old(self),
            r is Ok ==> del_app_rel(*old(self), *final(self), name@),
    {
        if str_eq(name, DATE_KEY) || str_eq(name, SCREENTIME) {
            return Err(StoreError::ProtectedColumn);
        }
        let ci = match self.find_col(name) {
            None => {
                return Err(StoreError::UnknownColumn);
            },
            Some(ci) => ci,
        };
        proof {
            self.lemma_col_lookup(name@, ci as int);
        }
        self.columns.remove(ci);
        let ghost orig = old(self).rows@;
        let ghost cols_mid = self.columns@;
        let mut updated: Vec<DailyRecord> = Vec::new();
        while self.rows.len() > 0
            invariant
                self.columns@ == cols_mid,
                self.settings == old(self).settings,
                self.notifications == old(self).notifications,
                updated@.len() + self.rows@.len() == orig.len(),
                forall|j: int|
                    0 <= j < orig.len() ==> (#[trigger] orig[j]).values@.len() == old(
                        self,
                    ).columns@.len(),
                ci < old(self).columns@.len(),
                forall|j: int|
                    0 <= j < self.rows@.len() ==> #[trigger] self.rows@[j] == orig[updated@.len()
                        + j],
                forall|j: int|
                    0 <= j < updated@.len() ==> (#[trigger] updated@[j]).date == orig[j].date
                        && updated@[j].values@ == orig[j].values@.remove(ci as int),
            decreases self.rows@.len(),
    {
            let mut rec = self.rows.remove(0);
            rec.values.remove(ci);
            updated.push(rec);
        }
        self.rows = updated;
        proof {
            let s = *self;
            let pre = *old(self);
            pre.columns@.remove_ensures(ci as int);
            assert forall|a: int, b: int| 0 <= a < b < s.columns@.len() implies (
            #[trigger] s.columns@[a])@ != (#[trigger] s.columns@[b])@ by {
                let a0 = if a < ci { a } else { a + 1 };
                let b0 = if b < ci { b } else { b + 1 };
                assert(s.columns@[a] == pre.columns@[a0]);
                assert(s.columns@[b] == pre.columns@[b0]);
            }
            assert(s.columns@[0]@ == SCREENTIME@) by {
                assert(ci != 0);
                assert(s.columns@[0] == pre.columns@[0]);
            }
            assert forall|a: int| 0 <= a < s.columns@.len() implies (#[trigger] s.columns@[a])@
                != DATE_KEY@ by {
                let a0 = if a < ci { a } else { a + 1 };
                assert(s.columns@[a] == pre.columns@[a0]);
            }
            assert(s.wf());
        }
        let ghost mid = *self;
        self.del_notif(name);
        proof {
            let s = *self;
            let pre = *old(self);
            assert(s.columns == mid.columns && s.rows == mid.rows && s.settings == mid.settings);
            assert forall|k: Seq<char>|
                #[trigger] s.notif_of(k) == if k == name@ {
                    None::<u16>
                } else {
                    pre.notif_of(k)
                } by {
                assert(s.notif_of(k) == if k == name@ {
                    None::<u16>
                } else {
                    mid.notif_of(k)
                });
                if k != name@ {
                    assert(mid.notifications == pre.notifications);
                    assert(mid.notif_of(k) == pre.notif_of(k));
                }
            }
            assert(del_app_rel(pre, s, name@));
        }
        Ok(())
    }

    /// The index of the row for `day`, if one is stored.
    fn find_row(&self, day: i32) -> (r: Option<usize>)
        requires
            self.wf(),
        ensures
            r is Some <==> self.has_row(day as int),
            r is Some ==> 0 <= r->0 < self.rows@.len() && self.rows@[r->0 as int].date.days == day
                && self.row_of(day as int) == r->0 as int,
    {
        let n = self.rows.len();
        let mut i: usize = 0;
        while i < n
            invariant
                self.wf(),
                n == self.rows@.len(),
                0 <= i <= n,
                forall|k: int| 0 <= k < i ==> (#[trigger] self.rows@[k]).date.days != day,
            decreases n - i,
        {
            if self.rows[i].date.days == day {
                proof {
                    self.lemma_row_lookup(day as int, i as int);
                }
                return Some(i);
            }
            i = i + 1;
        }
        None
    }

    /// Today's stored counters, one per column in registry order, with
    /// zeroes when today has no row yet.
    pub fn get_values(&self, today: Date) -> (r: Vec<u16>)
        requires
            self.wf(),
        ensures
            r@.len() == self.columns@.len(),
            forall|i: int| 0 <= i < r@.len() ==> r@[i] as int == self.minutes_on(
                today.days as int,
                i,
            ),
    {
        let n = self.columns.len();
        let found = self.find_row(today.days);
        let mut r: Vec<u16> = Vec::new();
        let mut i: usize = 0;
        while i < n
            invariant
                self.wf(),
                n == self.columns@.len(),
                0 <= i <= n,
                r@.len() == i,
                found is Some <==> self.has_row(today.days as int),
                found is Some ==> 0 <= found->0 < self.rows@.len() && self.row_of(
                    today.days as int,
                ) == found->0 as int,
                forall|k: int|
                    0 <= k < i ==> r@[k] as int == self.minutes_on(today.days as int, k),
            decreases n - i,
        {
            let v: u16 = match found {
                Some(ri) => self.rows[ri].values[i],
                None => 0,
            };
            r.push(v);
            i = i + 1;
        }
        r
    }

    /// The alerts due for the given column names and counters: one per
    /// application whose configured threshold equals its counter.
    pub fn check_notif(&self, names: &Vec<String>, values: &Vec<u16>) -> (r: Vec<Alert>)
        requires
            self.wf(),
            names@.len() == values@.len(),
        ensures
            alerts_view(r@) == alerts_spec(*self, names_view(names@), values@, names@.len() as int),
    {
        let n = names.len();
        let mut r: Vec<Alert> = Vec::new();
        let mut i: usize = 0;
        while i < n
            invariant
                self.wf(),
                n == names@.len() == values@.len(),
                0 <= i <= n,
                alerts_view(r@) == alerts_spec(*self, names_view(names@), values@, i as int),
            decreases n - i,
        {
            let due = match self.find_notif(names[i].as_str()) {
                Some(ni) => self.notifications[ni].1 == values[i],
                None => false,
            };
            if due {
                let duration = Time::new(values[i] as u64).text();
                r.push(Alert { app: names[i].clone(), duration });
                proof {
                    assert(alerts_view(r@) =~= alerts_spec(*self, names_view(names@), values@, i + 1));
                }
            } else {
                proof {
                    assert(alerts_view(r@) =~= alerts_spec(*self, names_view(names@), values@, i + 1));
                }
            }
            i = i + 1;
        }
        r
    }

    /// One sample tick for `today`: replaces (or creates) today's row
    /// with every active application's counter — and always the
    /// session counter — advanced by one minute, and returns the
    /// alerts whose thresholds were hit exactly.
    pub fn increment_time(&mut self, today: Date, active: &Vec<bool>) -> (r: Vec<Alert>)
        requires
            old(self).wf(),
            today.wf(),
            active@.len() == old(self).columns@.len(),
        ensures
            final(self).wf(),
            final(self).columns == old(self).columns,
            final(self).settings == old(self).settings,
            final(self).notifications == old(self).notifications,
            forall|i: int|
                0 <= i < old(self).columns@.len() ==> final(self).minutes_on(today.days as int, i)
                    == tick_values(*old(self), today.days as int, active@)[i],
            forall|d: int, i: int|
                d != today.days as int ==> final(self).minutes_on(d, i) == old(self).minutes_on(
                    d,
                    i,
                ),
            forall|d: int| final(self).has_row(d) == (old(self).has_row(d) || d == today.days as int),
            alerts_view(r@) == alerts_spec(
                *old(self),
                names_view(old(self).columns@),
                tick_values(*old(self), today.days as int, active@),
                old(self).columns@.len() as int,
            ),
    {
        let names = self.get_column_name();
        let mut values = self.get_values(today);
        update_values(&mut values, active);
        // the session counter advances whether or not its flag was set
        if !active[0] {
            let v0 = values[0];
            if v0 < 0xFFFF {
                values.set(0, v0 + 1);
            }
        }
        proof {
            assert(values@ =~= tick_values(*old(self), today.days as int, active@));
        }
        let alerts = self.check_notif(&names, &values);
        proof {
            assert(names_view(names@) =~= names_view(old(self).columns@));
        }
        let found = self.find_row(today.days);
        let ghost pre = *self;
        if let Some(ri) = found {
            self.rows.remove(ri);
        }
        let ghost pruned = *self;
        self.rows.push(DailyRecord { date: today, values });
        proof {
            let s = *self;
            let m = s.rows@.len() - 1;
            if found is Some {
                let fi = found->0 as int;
                pre.rows@.remove_ensures(fi);
                assert forall|a: int, b: int| 0 <= a < b < pruned.rows@.len() implies (
                #[trigger] pruned.rows@[a]).date.days != (#[trigger] pruned.rows@[b]).date.days by {
                    let a0 = if a < fi { a } else { a + 1 };
                    let b0 = if b < fi { b } else { b + 1 };
                    assert(pruned.rows@[a] == pre.rows@[a0]);
                    assert(pruned.rows@[b] == pre.rows@[b0]);
                }
                assert forall|k: int| 0 <= k < pruned.rows@.len() implies (
                #[trigger] pruned.rows@[k]).date.days != today.days by {
                    let k0 = if k < fi { k } else { k + 1 };
                    assert(pruned.rows@[k] == pre.rows@[k0]);
                    if k0 != fi && pre.rows@[k0].date.days == today.days {
                        if k0 < fi {
                            assert(pre.rows@[k0].date.days != pre.rows@[fi].date.days);
                        } else {
                            assert(pre.rows@[fi].date.days != pre.rows@[k0].date.days);
                        }
                    }
                }
            } else {
                assert forall|k: int| 0 <= k < pruned.rows@.len() implies (
                #[trigger] pruned.rows@[k]).date.days != today.days by {}
            }
            assert(forall|k: int| 0 <= k < m ==> s.rows@[k] == pruned.rows@[k]);
            assert(s.wf());
            s.lemma_row_lookup(today.days as int, m);
            assert forall|i: int|
                0 <= i < old(self).columns@.len() implies s.minutes_on(today.days as int, i)
                == tick_values(*old(self), today.days as int, active@)[i] by {}
            assert forall|d: int, i: int|
                d != today.days as int implies s.minutes_on(d, i) == old(self).minutes_on(
                d,
                i,
            ) by {
                if s.has_row(d) {
                    let j = choose|j: int|
                        0 <= j < s.rows@.len() && (#[trigger] s.rows@[j]).date.days == d;
                    assert(j != m);
                    assert(s.rows@[j] == pruned.rows@[j]);
                    s.lemma_row_lookup(d, j);
                    if found is Some {
                        let fi = found->0 as int;
                        let j0 = if j < fi { j } else { j + 1 };
                        assert(pruned.rows@[j] == pre.rows@[j0]);
                        pre.lemma_row_lookup(d, j0);
                    } else {
                        pre.lemma_row_lookup(d, j);
                    }
                } else if pre.has_row(d) {
                    let j0 = choose|j: int|
                        0 <= j < pre.rows@.len() && (#[trigger] pre.rows@[j]).date.days == d;
                    if found is Some {
                        let fi = found->0 as int;
                        assert(j0 != fi);
                        let j = if j0 < fi { j0 } else { j0 - 1 };
                        assert(pruned.rows@[j] == pre.rows@[j0]);
                        assert(s.rows@[j] == pruned.rows@[j]);
                        assert(s.has_row(d));
                    } else {
                        assert(s.rows@[j0] == pre.rows@[j0]);
                        assert(s.has_row(d));
                    }
                }
            }
            assert forall|d: int| s.has_row(d) == (pre.has_row(d) || d == today.days as int) by {
                if d == today.days as int {
                    assert(s.has_row(d));
                } else {
                    if s.has_row(d) {
                        let j = choose|j: int|
                            0 <= j < s.rows@.len() && (#[trigger] s.rows@[j]).date.days == d;
                        assert(j != m);
                        assert(s.rows@[j] == pruned.rows@[j]);
                        if found is Some {
                            let fi = found->0 as int;
                            let j0 = if j < fi { j } else { j + 1 };
                            assert(pre.rows@[j0].date.days == d);
                            assert(pre.has_row(d));
                        } else {
                            assert(pre.rows@[j].date.days == d);
                            assert(pre.has_row(d));
                        }
                    }
                    if pre.has_row(d) {
                        let j0 = choose|j: int|
                            0 <= j < pre.rows@.len() && (#[trigger] pre.rows@[j]).date.days == d;
                        if found is Some {
                            let fi = found->0 as int;
                            assert(j0 != fi);
                            let j = if j0 < fi { j0 } else { j0 - 1 };
                            assert(pruned.rows@[j] == pre.rows@[j0]);
                            assert(s.rows@[j] == pruned.rows@[j]);
                            assert(s.rows@[j].date.days == d);
                            assert(s.has_row(d));
                        } else {
                            assert(s.rows@[j0] == pre.rows@[j0]);
                            assert(s.rows@[j0].date.days == d);
                            assert(s.has_row(d));
                        }
                    }
                }
            }
        }
        alerts
    }

    /// Removes every row older than `days` days before `today`; the
    /// boundary row aged exactly `days` is kept.
    pub fn purge_older_than(&mut self, today: Date, days: u16)
        requires
            old(self).wf(),
            today.wf(),
        ensures
            final(self).wf(),
            final(self).columns == old(self).columns,
            final(self).settings == old(self).settings,
            final(self).notifications == old(self).notifications,
            forall|d: int|
                final(self).has_row(d) == (old(self).has_row(d) && today.days - d <= days),
            forall|d: int, i: int|
                final(self).minutes_on(d, i) == (if today.days - d <= days {
                    old(self).minutes_on(d, i)
                } else {
                    0
                }),
    {
        let ghost orig = self.rows@;
        let mut kept: Vec<DailyRecord> = Vec::new();
        while self.rows.len() > 0
            invariant
                self.columns == old(self).columns,
                self.settings == old(self).settings,
                self.notifications == old(self).notifications,
                today.wf(),
                forall|j: int, l: int|
                    0 <= j < l < orig.len() ==> (#[trigger] orig[j]).date.days != (
                    #[trigger] orig[l]).date.days,
                forall|j: int|
                    0 <= j < orig.len() ==> (#[trigger] orig[j]).values@.len() == old(
                        self,
                    ).columns@.len() && orig[j].date.wf(),
                self.rows@.len() <= orig.len(),
                forall|j: int|
                    0 <= j < self.rows@.len() ==> #[trigger] self.rows@[j] == orig[orig.len()
                        - self.rows@.len() + j],
                forall|j: int|
                    0 <= j < kept@.len() ==> today.days - (#[trigger] kept@[j]).date.days <= days,
                forall|j: int|
                    0 <= j < kept@.len() ==> exists|j0: int|
                        0 <= j0 < orig.len() - self.rows@.len() && #[trigger] kept@[j] == orig[j0],
                forall|j0: int|
                    0 <= j0 < orig.len() - self.rows@.len() && today.days - (
                    #[trigger] orig[j0]).date.days <= days ==> exists|j: int|
                        0 <= j < kept@.len() && kept@[j] == orig[j0],
                forall|a: int, b: int|
                    0 <= a < b < kept@.len() ==> (#[trigger] kept@[a]).date.days != (
                    #[trigger] kept@[b]).date.days,
            decreases self.rows@.len(),
        {
            let ghost k = orig.len() - self.rows@.len();
            let rec = self.rows.remove(0);
            proof {
                assert(rec == orig[k]);
            }
            let ghost kept0 = kept@;
            if today.days - rec.date.days <= days as i32 {
                kept.push(rec);
                proof {
                    assert forall|a: int, b: int|
                        0 <= a < b < kept@.len() implies (#[trigger] kept@[a]).date.days != (
                    #[trigger] kept@[b]).date.days by {
                        if b == kept@.len() - 1 {
                            let a0 = choose|a0: int|
                                0 <= a0 < k && #[trigger] kept@[a] == orig[a0];
                            assert(orig[a0].date.days != orig[k].date.days);
                        }
                    }
                    assert forall|j0: int|
                        0 <= j0 < k + 1 && today.days - (#[trigger] orig[j0]).date.days
                        <= days implies exists|j: int|
                        0 <= j < kept@.len() && kept@[j] == orig[j0] by {
                        if j0 < k {
                            let j = choose|j: int|
                                0 <= j < kept0.len() && #[trigger] kept0[j] == orig[j0];
                            assert(kept@[j] == orig[j0]);
                        } else {
                            assert(kept@[kept@.len() - 1] == orig[k]);
                        }
                    }
                }
            } else {
                proof {
                    assert forall|j0: int|
                        0 <= j0 < k + 1 && today.days - (#[trigger] orig[j0]).date.days
                        <= days implies exists|j: int|
                        0 <= j < kept@.len() && kept@[j] == orig[j0] by {
                        if j0 < k {
                            let j = choose|j: int|
                                0 <= j < kept0.len() && #[trigger] kept0[j] == orig[j0];
                            assert(kept@[j] == orig[j0]);
                        }
                    }
                }
            }
        }
        self.rows = kept;
        proof {
            let s = *self;
            let pre = *old(self);
            assert(pre.rows@ == orig);
            assert forall|d: int|
                s.has_row(d) == (pre.has_row(d) && today.days - d <= days) by {
                if s.has_row(d) {
                    let j = choose|j: int|
                        0 <= j < s.rows@.len() && (#[trigger] s.rows@[j]).date.days == d;
                    let j0 = choose|j0: int| 0 <= j0 < orig.len() && #[trigger] s.rows@[j]
                        == orig[j0];
                    assert(orig[j0].date.days == d);
                    assert(pre.has_row(d));
                    assert(today.days - d <= days);
                }
                if pre.has_row(d) && today.days - d <= days {
                    let j0 = choose|j0: int|
                        0 <= j0 < orig.len() && (#[trigger] orig[j0]).date.days == d;
                    assert(today.days - orig[j0].date.days <= days);
                    let j = choose|j: int| 0 <= j < s.rows@.len() && #[trigger] s.rows@[j]
                        == orig[j0];
                    assert(s.rows@[j].date.days == d);
                    assert(s.has_row(d));
                }
            }
            assert forall|d: int, i: int|
                #[trigger] s.minutes_on(d, i) == (if today.days - d <= days {
                    pre.minutes_on(d, i)
                } else {
                    0
                }) by {
                if s.has_row(d) {
                    let j = choose|j: int|
                        0 <= j < s.rows@.len() && (#[trigger] s.rows@[j]).date.days == d;
                    s.lemma_row_lookup(d, j);
                    let j0 = choose|j0: int| 0 <= j0 < orig.len() && #[trigger] s.rows@[j]
                        == orig[j0];
                    pre.lemma_row_lookup(d, j0);
                }
            }
        }
    }

    /// Removes every row older than the configured retention window.
    pub fn delete_old_data(&mut self, today: Date)
        requires
            old(self).wf(),
            today.wf(),
        ensures
            final(self).wf(),
            final(self).columns == old(self).columns,
            final(self).settings == old(self).settings,
            final(self).notifications == old(self).notifications,
            forall|d: int|
                final(self).has_row(d) == (old(self).has_row(d) && today.days - d <= old(
                    self,
                ).storage_size_of()),
            forall|d: int, i: int|
                final(self).minutes_on(d, i) == (if today.days - d <= old(self).storage_size_of() {
                    old(self).minutes_on(d, i)
                } else {
                    0
                }),
    {
        let storage_size: u16 = match self.get_attribute("storage_size") {
            Some(v) => match parse_u16(v.as_str()) {
                Some(n) => n,
                None => 28,
            },
            None => 28,
        };
        proof {
            assert(storage_size as int == self.storage_size_of());
        }
        self.purge_older_than(today, storage_size);
    }

    /// Alert computation depends only on the notification table.
    proof fn lemma_alerts_same_notifs(
        s1: Store,
        s2: Store,
        names: Seq<Seq<char>>,
        values: Seq<u16>,
        n: int,
    )
        requires
            s1.notifications == s2.notifications,
        ensures
            alerts_spec(s1, names, values, n) == alerts_spec(s2, names, values, n),
        decreases n,
    {
        if n > 0 {
            Store::lemma_alerts_same_notifs(s1, s2, names, values, n - 1);
        }
    }

    /// One gated update cycle: when sampling is on, purges rows beyond
    /// the retention window, advances today's counters by one tick and
    /// returns the alerts due; when sampling is off, does nothing.
    pub fn update(&mut self, today: Date, active: &Vec<bool>) -> (r: Vec<Alert>)
        requires
            old(self).wf(),
            today.wf(),
            active@.len() == old(self).columns@.len(),
        ensures
            final(self).wf(),
            old(self).state_of() != "on"@ ==> *final(self) == *old(self) && r@.len() == 0,
            old(self).state_of() == "on"@ ==> {
                &&& final(self).columns == old(self).columns
                &&& final(self).settings == old(self).settings
                &&& final(self).notifications == old(self).notifications
                &&& forall|i: int|
                    0 <= i < old(self).columns@.len() ==> final(self).minutes_on(
                        today.days as int,
                        i,
                    ) == (if i == 0 || active@[i] {
                        bumped(old(self).minutes_on(today.days as int, i))
                    } else {
                        old(self).minutes_on(today.days as int, i)
                    })
                &&& forall|d: int, i: int|
                    d != today.days as int ==> final(self).minutes_on(d, i) == (if today.days - d
                        <= old(self).storage_size_of() {
                        old(self).minutes_on(d, i)
                    } else {
                        0
                    })
                &&& forall|d: int|
                    final(self).has_row(d) == ((old(self).has_row(d) && today.days - d <= old(
                        self,
                    ).storage_size_of()) || d == today.days as int)
                &&& alerts_view(r@) == alerts_spec(
                    *old(self),
                    names_view(old(self).columns@),
                    tick_values(*old(self), today.days as int, active@),
                    old(self).columns@.len() as int,
                )
            },
    {
        let state_on = match self.get_attribute("state") {
            Some(v) => str_eq(v.as_str(), "on"),
            None => true,
        };
        if !state_on {
            return Vec::new();
        }
        self.delete_old_data(today);
        let ghost mid = *self;
        let alerts = self.increment_time(today, active);
        proof {
            let s = *self;
            let pre = *old(self);
            assert(pre.storage_size_of() >= 0) by {
                if pre.setting_of("storage_size"@) is Some {
                    let v = pre.setting_of("storage_size"@)->0;
                    if v.len() > 0 && all_digits(v) && dec_val(v) <= u16::MAX {
                        crate::numfmt::lemma_dec_val_nonneg(v);
                    }
                }
            }
            assert(tick_values(mid, today.days as int, active@) =~= tick_values(
                pre,
                today.days as int,
                active@,
            ));
            Store::lemma_alerts_same_notifs(
                mid,
                pre,
                names_view(pre.columns@),
                tick_values(pre, today.days as int, active@),
                pre.columns@.len() as int,
            );
            assert(names_view(mid.columns@) =~= names_view(pre.columns@));
        }
        alerts
    }

    /// The stored counter of column `col` on the day numbered `day`.
    fn minutes_at(&self, day: i32, col: usize) -> (r: u16)
        requires
            self.wf(),
            col < self.columns@.len(),
        ensures
            r as int == self.minutes_on(day as int, col as int),
    {
        match self.find_row(day) {
            Some(ri) => self.rows[ri].values[col],
            None => 0,
        }
    }

    /// One day's breakdown: one entry per tracked application, in
    /// registry order, with that day's stored counters and zeroes for
    /// a day without a row.
    pub fn get_time_day(&self, date: Date) -> (r: Vec<TimeApp>)
        requires
            self.wf(),
            date.wf(),
        ensures
            r@ == day_entries(*self, date),
            r@.len() == self.columns@.len(),
            forall|i: int|
                0 <= i < r@.len() ==> {
                    let e = #[trigger] r@[i];
                    &&& e.name@ == self.columns@[i]@
                    &&& e.date == date
                    &&& e.min_total as int == self.minutes_on(date.days as int, i)
                    &&& e.time.wf()
                    &&& e.time.minutes() == e.min_total
                },
    {
        let n = self.columns.len();
        let mut r: Vec<TimeApp> = Vec::new();
        let mut i: usize = 0;
        while i < n
            invariant
                self.wf(),
                date.wf(),
                n == self.columns@.len(),
                0 <= i <= n,
                r@.len() == i,
                forall|k: int|
                    0 <= k < i ==> {
                        let e = #[trigger] r@[k];
                        &&& e == day_entries(*self, date)[k]
                        &&& e.name@ == self.columns@[k]@
                        &&& e.date == date
                        &&& e.min_total as int == self.minutes_on(date.days as int, k)
                        &&& e.time.wf()
                        &&& e.time.minutes() == e.min_total
                    },
            decreases n - i,
        {
            let v = self.minutes_at(date.days, i);
            r.push(TimeApp::new(self.columns[i].clone(), date, v));
            i = i + 1;
        }
        proof {
            assert(r@ =~= day_entries(*self, date));
        }
        r
    }

    /// The notification list rendered for display.
    pub fn notif_report(&self) -> (r: String)
        requires
            self.wf(),
        ensures
            r@ == "List of notifications :\n"@ + notif_lines(self.notifications@) + "\n"@,
    {
        let mut body = String::new();
        let n = self.notifications.len();
        let mut i: usize = 0;
        while i < n
            invariant
                n == self.notifications@.len(),
                0 <= i <= n,
                body@ == notif_lines(self.notifications@.subrange(0, i as int)),
            decreases n - i,
        {
            proof {
                reveal_strlit(" => ");
                reveal_strlit("\n");
            }
            body.append(self.notifications[i].0.as_str());
            body.append(" => ");
            let d = Time::new(self.notifications[i].1 as u64).text();
            body.append(d.as_str());
            body.append("\n");
            proof {
                assert(self.notifications@.subrange(0, i + 1).drop_last()
                    =~= self.notifications@.subrange(0, i as int));
                assert(body@ =~= notif_lines(self.notifications@.subrange(0, i + 1)));
            }
            i = i + 1;
        }
        let mut r = String::from_str("List of notifications :\n");
        r.append(body.as_str());
        r.append("\n");
        proof {
            assert(self.notifications@.subrange(0, n as int) =~= self.notifications@);
            assert(r@ =~= "List of notifications :\n"@ + notif_lines(self.notifications@)
                + "\n"@);
        }
        r
    }

    /// One application's daily series: exactly `number_days + 1`
    /// entries with strictly consecutive dates, most recent first,
    /// ending at `date` going backward, with zero-valued entries
    /// filling every day the store has no row for.  Fails with
    /// `NotFound` when the application is not tracked.
    pub fn get_time_app(&self, name: &str, date: Date, number_days: u16) -> (r: Result<
        Vec<TimeApp>,
        StoreError,
    >)
        requires
            self.wf(),
            date.wf(),
            date.days - number_days >= DAY_MIN,
        ensures
            r is Ok <==> self.is_tracked(name@),
            r is Err ==> r == Err::<Vec<TimeApp>, StoreError>(StoreError::NotFound),
            r is Ok ==> {
                let v = r->Ok_0@;
                &&& v.len() == number_days + 1
                &&& forall|i: int|
                    0 <= i < v.len() ==> {
                        let e = #[trigger] v[i];
                        &&& e.date.days == date.days - i
                        &&& e.date.wf()
                        &&& e.name@ == name@
                        &&& e.min_total as int == self.minutes_on(
                            date.days - i,
                            self.col_of(name@),
                        )
                        &&& e.time.wf()
                        &&& e.time.minutes() == e.min_total
                    }
            },
    {
        let col = match self.find_col(name) {
            None => {
                return Err(StoreError::NotFound);
            },
            Some(ci) => ci,
        };
        proof {
            self.lemma_col_lookup(name@, col as int);
        }
        let count = number_days as usize + 1;
        let mut v: Vec<TimeApp> = Vec::new();
        let mut i: usize = 0;
        while i < count
            invariant
                self.wf(),
                date.wf(),
                col < self.columns@.len(),
                self.col_of(name@) == col as int,
                count == number_days as int + 1,
                date.days - number_days >= DAY_MIN,
                0 <= i <= count,
                v@.len() == i,
                forall|k: int|
                    0 <= k < i ==> {
                        let e = #[trigger] v@[k];
                        &&& e.date.days == date.days - k
                        &&& e.date.wf()
                        &&& e.name@ == name@
                        &&& e.min_total as int == self.minutes_on(
                            date.days - k,
                            self.col_of(name@),
                        )
                        &&& e.time.wf()
                        &&& e.time.minutes() == e.min_total
                    },
            decreases count - i,
        {
            let day = Date { days: date.days - i as i32 };
            let m = self.minutes_at(day.days, col);
            v.push(TimeApp::new(String::from_str(name), day, m));
            i = i + 1;
        }
        Ok(v)
    }
}


/// One fired notification: the application and its formatted
/// accumulated duration.
pub struct Alert {
    pub app: String,
    pub duration: String,
}

/// A counter after one minute tick: one more, saturated at the
/// sixteen-bit ceiling.
pub open spec fn bumped(v: int) -> int {
    if v < 0xFFFF {
        v + 1
    } else {
        v
    }
}

/// The counters a sample tick writes for `today`: every column whose
/// application is active gains a minute, the session column (index 0)
/// always does, and the rest stay.
pub open spec fn tick_values(s: Store, today: int, active: Seq<bool>) -> Seq<u16> {
    Seq::new(
        s.columns@.len(),
        |i: int|
            (if i == 0 || active[i] {
                bumped(s.minutes_on(today, i))
            } else {
                s.minutes_on(today, i)
            }) as u16,
    )
}

/// The name sequences of a column list.
pub open spec fn names_view(cols: Seq<String>) -> Seq<Seq<char>> {
    cols.map_values(|x: String| x@)
}

/// The alerts due for the first `n` columns: one per column whose
/// configured threshold equals its current counter exactly.
pub open spec fn alerts_spec(s: Store, names: Seq<Seq<char>>, values: Seq<u16>, n: int) -> Seq<
    (Seq<char>, Seq<char>),
>
    decreases n,
{
    if n <= 0 {
        Seq::empty()
    } else {
        let rest = alerts_spec(s, names, values, n - 1);
        if s.notif_of(names[n - 1]) == Some(values[n - 1]) {
            rest.push((names[n - 1], time_chars(values[n - 1] as int)))
        } else {
            rest
        }
    }
}

/// The view of an alert list: each entry as its character sequences.
pub open spec fn alerts_view(r: Seq<Alert>) -> Seq<(Seq<char>, Seq<char>)> {
    r.map_values(|a: Alert| (a.app@, a.duration@))
}

/// Adds one minute to every counter whose flag is set, saturating at
/// the sixteen-bit ceiling.
pub fn update_values(values: &mut Vec<u16>, active: &Vec<bool>)
    requires
        old(values)@.len() == active@.len(),
    ensures
        final(values)@.len() == old(values)@.len(),
        forall|i: int|
            0 <= i < final(values)@.len() ==> final(values)@[i] == (if active@[i] {
                bumped(old(values)@[i] as int)
            } else {
                old(values)@[i] as int
            }),
{
    let n = values.len();
    let mut i: usize = 0;
    while i < n
        invariant
            n == values@.len() == old(values)@.len() == active@.len(),
            0 <= i <= n,
            forall|k: int| i <= k < n ==> values@[k] == old(values)@[k],
            forall|k: int|
                0 <= k < i ==> values@[k] == (if active@[k] {
                    bumped(old(values)@[k] as int)
                } else {
                    old(values)@[k] as int
                }),
        decreases n - i,
    {
        if active[i] {
            let v = values[i];
            if v < 0xFFFF {
                values.set(i, v + 1);
            }
        }
        i = i + 1;
    }
}

/// A column name wrapped in the brackets the backing table uses.
pub open spec fn bracketed(n: Seq<char>) -> Seq<char> {
    seq!['['] + n + seq![']']
}

/// Bracketed column names joined by commas.
pub open spec fn names_joined(names: Seq<Seq<char>>) -> Seq<char>
    decreases names.len(),
{
    if names.len() == 0 {
        Seq::empty()
    } else if names.len() == 1 {
        bracketed(names[0])
    } else {
        names_joined(names.drop_last()) + seq![','] + bracketed(names.last())
    }
}

/// Decimal counters joined by commas.
pub open spec fn values_joined(values: Seq<u16>) -> Seq<char>
    decreases values.len(),
{
    if values.len() == 0 {
        Seq::empty()
    } else if values.len() == 1 {
        dec_digits(values[0] as nat)
    } else {
        values_joined(values.drop_last()) + seq![','] + dec_digits(values.last() as nat)
    }
}

/// The full text of the statement that writes today's row.
pub open spec fn insert_query_chars(names: Seq<Seq<char>>, values: Seq<u16>) -> Seq<char> {
    "INSERT INTO time (date, "@ + names_joined(names) + ") VALUES (CURRENT_DATE, "@
        + values_joined(values) + ")"@
}

/// Builds the statement text that writes today's row: the bracketed
/// column names and the decimal counters, comma-joined, spliced into
/// the insert statement.
pub fn format_query(column_names: Vec<String>, values: Vec<u16>) -> (r: String)
    requires
        column_names@.len() == values@.len(),
    ensures
        r@ == insert_query_chars(names_view(column_names@), values@),
{
    proof {
        reveal_strlit("[");
        reveal_strlit("]");
        reveal_strlit(",");
    }
    let n = column_names.len();
    let mut names_query = String::new();
    let mut values_query = String::new();
    let mut i: usize = 0;
    while i < n
        invariant
            n == column_names@.len() == values@.len(),
            0 <= i <= n,
            names_query@ == names_joined(names_view(column_names@).subrange(0, i as int)),
            values_query@ == values_joined(values@.subrange(0, i as int)),
        decreases n - i,
    {
        proof {
            reveal_strlit("[");
            reveal_strlit("]");
            reveal_strlit(",");
        }
        if i > 0 {
            names_query.append(",");
            values_query.append(",");
        }
        names_query.append("[");
        names_query.append(column_names[i].as_str());
        names_query.append("]");
        let vs = dec_string(values[i] as u64);
        values_query.append(vs.as_str());
        proof {
            let nv = names_view(column_names@);
            assert(nv.subrange(0, i + 1).drop_last() =~= nv.subrange(0, i as int));
            assert(values@.subrange(0, i + 1).drop_last() =~= values@.subrange(0, i as int));
            assert(names_query@ =~= names_joined(nv.subrange(0, i + 1)));
            assert(values_query@ =~= values_joined(values@.subrange(0, i + 1)));
        }
        i = i + 1;
    }
    let mut r = String::from_str("INSERT INTO time (date, ");
    r.append(names_query.as_str());
    r.append(") VALUES (CURRENT_DATE, ");
    r.append(values_query.as_str());
    r.append(")");
    proof {
        assert(names_view(column_names@).subrange(0, n as int) =~= names_view(column_names@));
        assert(values@.subrange(0, n as int) =~= values@);
        assert(r@ =~= insert_query_chars(names_view(column_names@), values@));
    }
    r
}

/// Adding a tracked application and then removing it restores the
/// original store: the registry, the rows and the settings come back
/// exactly, and the thresholds differ at most in the added name,
/// which ends without one.
pub proof fn lemma_add_remove_round_trip(s0: Store, s1: Store, s2: Store, name: Seq<char>)
    requires
        s0.wf(),
        s1.wf(),
        !s0.is_tracked(name),
        add_app_rel(s0, s1, name),
        del_app_rel(s1, s2, name),
    ensures
        s2.columns@ == s0.columns@,
        s2.rows@.len() == s0.rows@.len(),
        forall|i: int|
            0 <= i < s0.rows@.len() ==> (#[trigger] s2.rows@[i]).date == s0.rows@[i].date
                && s2.rows@[i].values@ == s0.rows@[i].values@,
        s2.settings == s0.settings,
        forall|k: Seq<char>|
            #[trigger] s2.notif_of(k) == if k == name {
                None::<u16>
            } else {
                s0.notif_of(k)
            },
{
    let m = s0.columns@.len() as int;
    s1.lemma_col_lookup(name, m);
    assert(s2.columns@ =~= s0.columns@) by {
        s1.columns@.remove_ensures(m);
    }
    assert forall|i: int|
        0 <= i < s0.rows@.len() implies (#[trigger] s2.rows@[i]).date == s0.rows@[i].date
        && s2.rows@[i].values@ == s0.rows@[i].values@ by {
        assert(s1.rows@[i].values@ == s0.rows@[i].values@.push(0));
        assert(s1.rows@[i].values@.len() == m + 1);
        assert(s2.rows@[i].values@ =~= s0.rows@[i].values@) by {
            s1.rows@[i].values@.remove_ensures(m);
        }
    }
    assert forall|k: Seq<char>|
        #[trigger] s2.notif_of(k) == if k == name {
            None::<u16>
        } else {
            s0.notif_of(k)
        } by {
        if k != name {
            assert(s1.notifications == s0.notifications);
            assert(s1.notif_of(k) == s0.notif_of(k));
        }
    }
}

/// The effective settings of the store.
pub struct Settings {
    pub state: String,
    pub storage_size: u16,
}

impl Settings {
    /// The settings rendered for display.
    pub fn text(&self) -> (r: String)
        ensures
            r@ == "\tSettings :\nState : "@ + self.state@ + "\nStorage size : "@ + dec_digits(
                self.storage_size as nat,
            ),
    {
        let mut r = String::from_str("\tSettings :\nState : ");
        r.append(self.state.as_str());
        r.append("\nStorage size : ");
        let n = dec_string(self.storage_size as u64);
        r.append(n.as_str());
        proof {
            assert(r@ =~= "\tSettings :\nState : "@ + self.state@ + "\nStorage size : "@
                + dec_digits(self.storage_size as nat));
        }
        r
    }
}

/// The listed notification thresholds, one line per application.
pub open spec fn notif_lines(notifs: Seq<(String, u16)>) -> Seq<char>
    decreases notifs.len(),
{
    if notifs.len() == 0 {
        Seq::empty()
    } else {
        notif_lines(notifs.drop_last()) + notifs.last().0@ + " => "@ + time_chars(
            notifs.last().1 as int,
        ) + "\n"@
    }
}

/// The canonical entries of one day's breakdown, in registry order.
pub open spec fn day_entries(s: Store, date: Date) -> Seq<TimeApp> {
    Seq::new(
        s.columns@.len(),
        |i: int|
            TimeApp {
                name: s.columns@[i],
                time: Time {
                    hour: (s.minutes_on(date.days as int, i) / 60) as u64,
                    min: (s.minutes_on(date.days as int, i) % 60) as u64,
                },
                date: date,
                min_total: s.minutes_on(date.days as int, i) as u16,
            },
    )
}

/// How adding tracked application `name` transforms the store: the
/// registry grows by that column and every existing row gains a zero
/// counter for it; settings and thresholds stay as they were.
pub open spec fn add_app_rel(pre: Store, post: Store, name: Seq<char>) -> bool {
    &&& post.columns@.len() == pre.columns@.len() + 1
    &&& post.columns@[post.columns@.len() - 1]@ == name
    &&& (forall|i: int| 0 <= i < pre.columns@.len() ==> post.columns@[i] == pre.columns@[i])
    &&& post.rows@.len() == pre.rows@.len()
    &&& (forall|i: int|
        0 <= i < pre.rows@.len() ==> (#[trigger] post.rows@[i]).date == pre.rows@[i].date
            && post.rows@[i].values@ == pre.rows@[i].values@.push(0))
    &&& post.settings == pre.settings
    &&& post.notifications == pre.notifications
}

/// How removing tracked application `name` transforms the store: its
/// column leaves the registry, every row drops that counter, its
/// threshold (if any) is deleted, and settings stay as they were.
pub open spec fn del_app_rel(pre: Store, post: Store, name: Seq<char>) -> bool {
    let ci = pre.col_of(name);
    &&& post.columns@ == pre.columns@.remove(ci)
    &&& post.rows@.len() == pre.rows@.len()
    &&& (forall|i: int|
        0 <= i < pre.rows@.len() ==> (#[trigger] post.rows@[i]).date == pre.rows@[i].date
            && post.rows@[i].values@ == pre.rows@[i].values@.remove(ci))
    &&& post.settings == pre.settings
    &&& (forall|k: Seq<char>|
        #[trigger] post.notif_of(k) == if k == name {
            None::<u16>
        } else {
            pre.notif_of(k)
        })
}

} // verus!
