//! Durations in minutes, split into hours and minutes and rendered as
//! short texts such as `45m`, `2h` or `1h05`.

use vstd::prelude::*;
use crate::numfmt::{dec_digits, dec_string};

verus! {

/// A duration, split into whole hours and leftover minutes.
#[derive(Clone, Copy, Debug, PartialEq, Eq, Structural)]
pub struct Time {
    pub hour: u64,
    pub min: u64,
}

impl Time {
    /// The duration as a total number of minutes.
    pub open spec fn minutes(self) -> int {
        self.hour * 60 + self.min
    }

    /// A well-formed duration keeps its minute component below one hour.
    pub open spec fn wf(self) -> bool {
        self.min < 60
    }

    /// Splits a number of minutes into hours and minutes.
    pub fn new(mins: u64) -> (r: Time)
        ensures
            r.hour == mins / 60,
            r.min == mins % 60,
            r.wf(),
            r.minutes() == mins,
    {
        Time { hour: mins / 60, min: mins % 60 }
    }

    /// Renders the duration: minutes alone under one hour, bare hours on
    /// the full hour, and otherwise hours followed by a two-digit minute
    /// component.
    pub fn text(&self) -> (r: String)
        requires
            self.wf(),
        ensures
            r@ == time_chars(self.minutes()),
    {
        proof {
            reveal_strlit("m");
            reveal_strlit("h");
            reveal_strlit("h0");
        }
        if self.hour == 0 {
            let mut r = dec_string(self.min);
            r.append("m");
            proof {
                assert(r@ =~= time_chars(self.minutes()));
            }
            r
        } else if self.min == 0 {
            let mut r = dec_string(self.hour);
            r.append("h");
            proof {
                assert(r@ =~= time_chars(self.minutes()));
            }
            r
        } else if self.min < 10 {
            let mut r = dec_string(self.hour);
            r.append("h0");
            let m = dec_string(self.min);
            r.append(m.as_str());
            proof {
                assert(r@ =~= time_chars(self.minutes()));
            }
            r
        } else {
            let mut r = dec_string(self.hour);
            r.append("h");
            let m = dec_string(self.min);
            r.append(m.as_str());
            proof {
                assert(r@ =~= time_chars(self.minutes()));
            }
            r
        }
    }
}

/// The rendered text of a duration of `mins` minutes.
pub open spec fn time_chars(mins: int) -> Seq<char> {
    let h = mins / 60;
    let m = mins % 60;
    if h == 0 {
        dec_digits(m as nat) + seq!['m']
    } else if m == 0 {
        dec_digits(h as nat) + seq!['h']
    } else if m < 10 {
        dec_digits(h as nat) + seq!['h', '0'] + dec_digits(m as nat)
    } else {
        dec_digits(h as nat) + seq!['h'] + dec_digits(m as nat)
    }
}

} // verus!
