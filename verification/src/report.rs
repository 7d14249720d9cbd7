//! Rendering query results for display: the day view (busiest
//! application first) and the application view (one line per day with
//! a statistics block), each as one report text.

use vstd::prelude::*;
use vstd::multiset::Multiset;
use crate::dates::{date_chars, Date, DAY_MIN};
use crate::stats::{spec_max, spec_mean, spec_min, spec_sum, Stat};
use crate::store::{day_entries, Store, StoreError, TimeApp};
use crate::timefmt::time_chars;

verus! {

broadcast use vstd::seq_lib::group_to_multiset_ensures;

/// Which view a report renders: a single day across applications, or
/// one application across days.
pub enum Type {
    Day,
    App(String),
}

/// A series ordered by ascending minute counter.
pub open spec fn sorted_asc(s: Seq<TimeApp>) -> bool {
    forall|a: int, b: int| 0 <= a < b < s.len() ==> s[a].min_total <= s[b].min_total
}

/// A series ordered by descending minute counter.
pub open spec fn sorted_desc(s: Seq<TimeApp>) -> bool {
    forall|a: int, b: int| 0 <= a < b < s.len() ==> s[a].min_total >= s[b].min_total
}

/// Reorders a series by descending minute counter (busiest first).
pub fn sort_by_minutes_desc(values: Vec<TimeApp>) -> (r: Vec<TimeApp>)
    ensures
        r@.len() == values@.len(),
        r@.to_multiset() == values@.to_multiset(),
        sorted_desc(r@),
        forall|i: int| 0 <= i < r@.len() ==> values@.contains(#[trigger] r@[i]),
{
    let ghost orig = values@;
    let mut rest = values;
    let mut r: Vec<TimeApp> = Vec::new();
    while rest.len() > 0
        invariant
            r@.len() + rest@.len() == orig.len(),
            r@.to_multiset().add(rest@.to_multiset()) == orig.to_multiset(),
            sorted_desc(r@),
            forall|a: int, b: int|
                0 <= a < r@.len() && 0 <= b < rest@.len() ==> (#[trigger] r@[a]).min_total >= (
                #[trigger] rest@[b]).min_total,
        decreases rest@.len(),
    {
        let n = rest.len();
        let mut mi: usize = 0;
        let mut i: usize = 1;
        while i < n
            invariant
                n == rest@.len(),
                0 <= mi < i <= n,
                forall|k: int|
                    0 <= k < i ==> rest@[mi as int].min_total >= (#[trigger] rest@[k]).min_total,
            decreases n - i,
        {
            if rest[i].min_total > rest[mi].min_total {
                mi = i;
            }
            i = i + 1;
        }
        let ghost rest0 = rest@;
        let ghost r0 = r@;
        let x = rest.remove(mi);
        r.push(x);
        proof {
            rest0.remove_ensures(mi as int);
            assert(r@.to_multiset().add(rest@.to_multiset()) =~= orig.to_multiset());
            assert forall|a: int, b: int|
                0 <= a < r@.len() && 0 <= b < rest@.len() implies (#[trigger] r@[a]).min_total
                >= (#[trigger] rest@[b]).min_total by {
                let b0 = if b < mi { b } else { b + 1 };
                assert(rest@[b] == rest0[b0]);
                if a < r@.len() - 1 {
                    assert(r@[a] == r0[a]);
                } else {
                    assert(r@[a] == rest0[mi as int]);
                }
            }
            assert(sorted_desc(r@)) by {
                assert forall|a: int, b: int|
                    0 <= a < b < r@.len() implies r@[a].min_total >= r@[b].min_total by {
                    if b == r@.len() - 1 {
                        assert(r@[a] == r0[a]);
                        assert(r@[b] == rest0[mi as int]);
                    } else {
                        assert(r@[a] == r0[a]);
                        assert(r@[b] == r0[b]);
                    }
                }
            }
        }
    }
    proof {
        assert(rest@.to_multiset() =~= Multiset::<TimeApp>::empty());
        assert(r@.to_multiset() =~= orig.to_multiset());
        assert forall|i: int| 0 <= i < r@.len() implies orig.contains(#[trigger] r@[i]) by {
            assert(r@.to_multiset().count(r@[i]) > 0);
            assert(orig.to_multiset().count(r@[i]) > 0);
        }
    }
    r
}

/// One line of the day view: application name and duration.
pub open spec fn day_line_chars(name: Seq<char>, mins: int) -> Seq<char> {
    name + " : "@ + time_chars(mins) + "\n"@
}

/// The lines of the day view, one per entry in order.
pub open spec fn day_lines_chars(s: Seq<TimeApp>) -> Seq<char>
    decreases s.len(),
{
    if s.len() == 0 {
        Seq::empty()
    } else {
        day_lines_chars(s.drop_last()) + day_line_chars(
            s.last().name@,
            s.last().min_total as int,
        )
    }
}

/// The full day view: a dated header and one line per application.
pub open spec fn day_report_chars(date: Date, s: Seq<TimeApp>) -> Seq<char> {
    "\tApplication time for "@ + date_chars(date.days as int) + " :\n"@ + day_lines_chars(s)
}

/// One line of the application view: date and duration.
pub open spec fn app_line_chars(day: int, mins: int) -> Seq<char> {
    date_chars(day) + " : "@ + time_chars(mins) + "\n"@
}

/// The lines of the application view, one per entry in order.
pub open spec fn app_lines_chars(s: Seq<TimeApp>) -> Seq<char>
    decreases s.len(),
{
    if s.len() == 0 {
        Seq::empty()
    } else {
        app_lines_chars(s.drop_last()) + app_line_chars(
            s.last().date.days as int,
            s.last().min_total as int,
        )
    }
}

/// The statistics block of the application view.
pub open spec fn stat_report_chars(s: Seq<TimeApp>) -> Seq<char> {
    "Max : "@ + time_chars(spec_max(s)) + "\nMin : "@ + time_chars(spec_min(s)) + "\nSum : "@
        + time_chars(spec_sum(s)) + "\nMean: "@ + time_chars(spec_mean(s))
}

/// The full application view: a named header, one line per day, and
/// the statistics block.
pub open spec fn app_report_chars(name: Seq<char>, s: Seq<TimeApp>) -> Seq<char> {
    "\tTime for "@ + name + " :\n"@ + app_lines_chars(s) + "\n\tStats of time for "@ + name
        + " :\n"@ + stat_report_chars(s) + "\n"@
}

/// A display entry carries a well-formed date and a duration that
/// matches its minute counter.
pub open spec fn entry_wf(e: TimeApp) -> bool {
    &&& e.time.wf()
    &&& e.time.minutes() == e.min_total
    &&& e.date.wf()
}

/// A query result with the view it is rendered for.
pub struct ListTimeApp {
    pub values: Vec<TimeApp>,
    pub type_data: Type,
    pub date: Date,
}

impl ListTimeApp {
    /// Wraps a query result for rendering; the day view is reordered
    /// busiest-first, the application view keeps its date order.
    pub fn new(type_data: Type, values: Vec<TimeApp>, date: Date) -> (r: ListTimeApp)
        ensures
            r.type_data == type_data,
            r.date == date,
            r.values@.len() == values@.len(),
            type_data is Day ==> r.values@.to_multiset() == values@.to_multiset() && sorted_desc(
                r.values@,
            ) && forall|i: int| 0 <= i < r.values@.len() ==> values@.contains(
                #[trigger] r.values@[i],
            ),
            !(type_data is Day) ==> r.values == values,
    {
        let sorted = match &type_data {
            Type::Day => sort_by_minutes_desc(values),
            Type::App(_) => values,
        };
        ListTimeApp { type_data, values: sorted, date }
    }

    /// Renders the report for the wrapped view.
    pub fn text(&self) -> (r: String)
        requires
            self.date.wf(),
            forall|i: int| 0 <= i < self.values@.len() ==> entry_wf(#[trigger] self.values@[i]),
            self.type_data is App ==> self.values@.len() <= 0x1000_0000,
        ensures
            self.type_data is Day ==> r@ == day_report_chars(self.date, self.values@),
            self.type_data matches Type::App(name) ==> r@ == app_report_chars(
                name@,
                self.values@,
            ),
    {
        match &self.type_data {
            Type::Day => {
                let mut body = String::new();
                let n = self.values.len();
                let mut i: usize = 0;
                while i < n
                    invariant
                        n == self.values@.len(),
                        0 <= i <= n,
                        forall|k: int|
                            0 <= k < n ==> entry_wf(#[trigger] self.values@[k]),
                        body@ == day_lines_chars(self.values@.subrange(0, i as int)),
                    decreases n - i,
                {
                    proof {
                        reveal_strlit(" : ");
                        reveal_strlit("\n");
                    }
                    body.append(self.values[i].name.as_str());
                    body.append(" : ");
                    let t = self.values[i].time.text();
                    body.append(t.as_str());
                    body.append("\n");
                    proof {
                        assert(self.values@.subrange(0, i + 1).drop_last() =~= self.values@.subrange(
                            0,
                            i as int,
                        ));
                        assert(body@ =~= day_lines_chars(self.values@.subrange(0, i + 1)));
                    }
                    i = i + 1;
                }
                let mut r = String::from_str("\tApplication time for ");
                let d = self.date.text();
                r.append(d.as_str());
                r.append(" :\n");
                r.append(body.as_str());
                proof {
                    assert(self.values@.subrange(0, n as int) =~= self.values@);
                    assert(r@ =~= day_report_chars(self.date, self.values@));
                }
                r
            },
            Type::App(name) => {
                let mut body = String::new();
                let n = self.values.len();
                let mut i: usize = 0;
                while i < n
                    invariant
                        n == self.values@.len(),
                        0 <= i <= n,
                        forall|k: int|
                            0 <= k < n ==> entry_wf(#[trigger] self.values@[k]),
                        body@ == app_lines_chars(self.values@.subrange(0, i as int)),
                    decreases n - i,
                {
                    proof {
                        reveal_strlit(" : ");
                        reveal_strlit("\n");
                    }
                    let d = self.values[i].date.text();
                    body.append(d.as_str());
                    body.append(" : ");
                    let t = self.values[i].time.text();
                    body.append(t.as_str());
                    body.append("\n");
                    proof {
                        assert(self.values@.subrange(0, i + 1).drop_last() =~= self.values@.subrange(
                            0,
                            i as int,
                        ));
                        assert(body@ =~= app_lines_chars(self.values@.subrange(0, i + 1)));
                    }
                    i = i + 1;
                }
                let stat = Stat::new(&self.values);
                let stat_text = stat.text();
                let mut r = String::from_str("\tTime for ");
                r.append(name.as_str());
                r.append(" :\n");
                r.append(body.as_str());
                r.append("\n\tStats of time for ");
                r.append(name.as_str());
                r.append(" :\n");
                r.append(stat_text.as_str());
                r.append("\n");
                proof {
                    assert(self.values@.subrange(0, n as int) =~= self.values@);
                    assert(r@ =~= app_report_chars(name@, self.values@));
                }
                r
            },
        }
    }
}

/// One day's report: every tracked application's duration on that
/// date, busiest first, with zeroes for a day without a row.
pub fn day_report(store: &Store, date: Date) -> (r: String)
    requires
        store.wf(),
        date.wf(),
    ensures
        exists|p: Seq<TimeApp>|
            {
                &&& #[trigger] p.to_multiset() == day_entries(*store, date).to_multiset()
                &&& sorted_desc(p)
                &&& r@ == day_report_chars(date, p)
            },
{
    let values = store.get_time_day(date);
    let list = ListTimeApp::new(Type::Day, values, date);
    proof {
        assert forall|i: int|
            0 <= i < list.values@.len() implies entry_wf(#[trigger] list.values@[i]) by {
            let e = list.values@[i];
            let entries = day_entries(*store, date);
            assert(entries.contains(e));
            let j = choose|j: int| 0 <= j < entries.len() && entries[j] == e;
            assert(entry_wf(entries[j]));
        }
    }
    let r = list.text();
    proof {
        let p = list.values@;
        assert(p.to_multiset() == day_entries(*store, date).to_multiset() && sorted_desc(p) && r@
            == day_report_chars(date, p));
    }
    r
}

/// Reverses a series.
pub fn reverse_vec(values: Vec<TimeApp>) -> (r: Vec<TimeApp>)
    ensures
        r@.len() == values@.len(),
        forall|i: int| 0 <= i < r@.len() ==> #[trigger] r@[i] == values@[r@.len() - 1 - i],
{
    let n = values.len();
    let mut r: Vec<TimeApp> = Vec::new();
    let mut i: usize = 0;
    while i < n
        invariant
            n == values@.len(),
            0 <= i <= n,
            r@.len() == i,
            forall|k: int| 0 <= k < i ==> #[trigger] r@[k] == values@[n - 1 - k],
        decreases n - i,
    {
        let e = TimeApp {
            name: values[n - 1 - i].name.clone(),
            time: values[n - 1 - i].time,
            date: values[n - 1 - i].date,
            min_total: values[n - 1 - i].min_total,
        };
        r.push(e);
        i = i + 1;
    }
    r
}

/// One application's report: its duration on each day of the window,
/// most recent first (or oldest first when `reverse` is set), with
/// the statistics block.  Fails with `NotFound` for an untracked
/// application.
pub fn app_report(
    store: &Store,
    name: &str,
    date: Date,
    number_days: u16,
    reverse: bool,
) -> (r: Result<String, StoreError>)
    requires
        store.wf(),
        date.wf(),
        date.days - number_days >= DAY_MIN,
    ensures
        r is Ok <==> store.is_tracked(name@),
        r is Err ==> r == Err::<String, StoreError>(StoreError::NotFound),
        r is Ok ==> exists|v: Seq<TimeApp>|
            {
                &&& #[trigger] v.len() == number_days + 1
                &&& (forall|i: int|
                    0 <= i < v.len() ==> {
                        let e = #[trigger] v[i];
                        let day = if reverse {
                            date.days - number_days + i
                        } else {
                            date.days - i
                        };
                        &&& e.date.days == day
                        &&& e.min_total as int == store.minutes_on(day, store.col_of(name@))
                    })
                &&& r->Ok_0@ == app_report_chars(name@, v)
            },
{
    let values = match store.get_time_app(name, date, number_days) {
        Err(e) => {
            return Err(StoreError::NotFound);
        },
        Ok(v) => v,
    };
    let values = if reverse {
        reverse_vec(values)
    } else {
        values
    };
    let list = ListTimeApp::new(Type::App(String::from_str(name)), values, date);
    let r = list.text();
    proof {
        let v = list.values@;
        assert(v.len() == number_days + 1 && r@ == app_report_chars(name@, v));
    }
    Ok(r)
}

} // verus!
