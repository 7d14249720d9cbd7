//! The interactive chart browser: a single-threaded state machine
//! over two view modes (one day across applications, one application
//! across days), a modal edit buffer for date, application and count,
//! a help overlay, and the windowing of the bar chart.
//!
//! The surrounding program owns the terminal: it reads one key, hands
//! it to [`Browser::handle_key_event`], renders the model that
//! [`Browser::chart_model`] yields, and repeats until `exit` is set.

use vstd::prelude::*;
use crate::dates::{date_chars, parsed_day_number, Date, DAY_MAX, DAY_MIN};
use crate::numfmt::parse_u16;
use crate::report::{entry_wf, reverse_vec, sort_by_minutes_desc, sorted_asc, sorted_desc};
use crate::stats::Stat;
use crate::store::{day_entries, Store, TimeApp};
use crate::strutil::{pop_char, push_char};

verus! {

/// The two top-level views.
#[derive(Clone, Copy, Debug, PartialEq, Eq, Structural)]
pub enum Mode {
    Day,
    App,
}

/// The query parameter a modal edit targets.
#[derive(Clone, Copy, Debug, PartialEq, Eq, Structural)]
pub enum EditField {
    Date,
    AppName,
    Count,
}

/// Whether a modal edit is in progress, and on which field.
#[derive(Clone, Copy, Debug, PartialEq, Eq, Structural)]
pub enum InputMode {
    Normal,
    Editing(EditField),
}

/// One key press, as the state machine sees it.
#[derive(Clone, Copy, Debug, PartialEq, Eq, Structural)]
pub enum KeyPress {
    Character(char),
    Up,
    Down,
    Left,
    Right,
    Enter,
    Escape,
    Backspace,
    Other,
}

/// The day view's parameters.
#[derive(Clone, Copy, Debug, PartialEq, Eq, Structural)]
pub struct OptionDay {
    pub date: Date,
    pub reverse: bool,
    pub index_bar: usize,
}

/// The application view's parameters.
pub struct OptionApp {
    pub app: String,
    pub date: Date,
    pub number: u16,
    pub reverse: bool,
    pub index_bar: usize,
}

/// The browser's whole state.
pub struct Browser {
    pub mode: Mode,
    pub option_day: OptionDay,
    pub option_app: OptionApp,
    pub input_mode: InputMode,
    pub buffer: String,
    pub show_help: bool,
    pub exit: bool,
}

/// Both views' parameters are unchanged between two states.
pub open spec fn same_options(pre: Browser, post: Browser) -> bool {
    &&& post.option_day == pre.option_day
    &&& same_option_app(pre.option_app, post.option_app)
}

/// The application view's parameters are unchanged.
pub open spec fn same_option_app(pre: OptionApp, post: OptionApp) -> bool {
    &&& post.app == pre.app
    &&& post.date == pre.date
    &&& post.number == pre.number
    &&& post.reverse == pre.reverse
    &&& post.index_bar == pre.index_bar
}

/// Everything but the modal input (mode, options, help, exit) is
/// unchanged between two states.
pub open spec fn same_but_input(pre: Browser, post: Browser) -> bool {
    &&& post.mode == pre.mode
    &&& same_options(pre, post)
    &&& post.show_help == pre.show_help
    &&& post.exit == pre.exit
}

/// The date a committed date edit resolves to: the parsed buffer when
/// it names a representable calendar date, the previous date
/// otherwise.
pub open spec fn committed_date(buffer: Seq<char>, prev: Date) -> int {
    match parsed_day_number(buffer) {
        Some(dn) => if DAY_MIN <= dn <= DAY_MAX {
            dn
        } else {
            prev.days as int
        },
        None => prev.days as int,
    }
}

impl Browser {
    /// The browser state is well formed for a store: its dates are
    /// representable and the observed application is tracked.
    pub open spec fn wf(self, store: Store) -> bool {
        &&& self.option_day.date.wf()
        &&& self.option_app.date.wf()
        &&& store.is_tracked(self.option_app.app@)
    }

    /// The initial state: day view, no modal, no help, anchored at
    /// today, observing the session pseudo-application over a week.
    pub fn new(store: &Store, today: Date) -> (r: Browser)
        requires
            store.wf(),
            today.wf(),
        ensures
            r.wf(*store),
            r.mode is Day,
            r.input_mode is Normal,
            !r.show_help,
            !r.exit,
            r.buffer@.len() == 0,
            r.option_day == (OptionDay { date: today, reverse: false, index_bar: 0 }),
            r.option_app.app@ == "pc"@,
            r.option_app.date == today,
            r.option_app.number == 7,
            !r.option_app.reverse,
            r.option_app.index_bar == 0,
    {
        let r = Browser {
            mode: Mode::Day,
            option_day: OptionDay { date: today, reverse: false, index_bar: 0 },
            option_app: OptionApp {
                app: String::from_str(crate::store::SCREENTIME),
                date: today,
                number: 7,
                reverse: false,
                index_bar: 0,
            },
            input_mode: InputMode::Normal,
            buffer: String::new(),
            show_help: false,
            exit: false,
        };
        proof {
            assert(store.columns@[0]@ == r.option_app.app@);
        }
        r
    }

    /// The reverse flag of the current view.
    pub fn is_reverse(&self) -> (r: bool)
        ensures
            r == if self.mode is Day {
                self.option_day.reverse
            } else {
                self.option_app.reverse
            },
    {
        match self.mode {
            Mode::Day => self.option_day.reverse,
            Mode::App => self.option_app.reverse,
        }
    }

    /// Processes one key press.
    ///
    /// With the help overlay up, only `q` and escape (which dismiss
    /// it) do anything.  During a modal edit, characters and
    /// backspace edit the buffer, enter commits it (an unparsable or
    /// unknown value leaves the previous one), and escape discards
    /// it.  Otherwise the key drives the current view: quitting,
    /// switching views, flipping the order, opening an edit, jumping
    /// to today, stepping the date, or scrolling the chart.
    pub fn handle_key_event(&mut self, store: &Store, key: KeyPress, today: Date)
        requires
            old(self).wf(*store),
            store.wf(),
            today.wf(),
        ensures
            final(self).wf(*store),
            old(self).show_help ==> {
                &&& (key == KeyPress::Character('q') || key == KeyPress::Escape) ==> *final(self)
                    == (Browser { show_help: false, ..*old(self) })
                &&& !(key == KeyPress::Character('q') || key == KeyPress::Escape) ==> *final(self)
                    == *old(self)
            },
            (!old(self).show_help && old(self).input_mode is Editing) ==> ({
                let f = old(self).input_mode->Editing_0;
                &&& key == KeyPress::Escape ==> same_but_input(*old(self), *final(self)) && final(self).input_mode is Normal && final(self).buffer@.len() == 0
                &&& key matches KeyPress::Character(c) ==> *final(self) == (Browser {
                    buffer: final(self).buffer,
                    ..*old(self)
                }) && final(self).buffer@ == old(self).buffer@.push(c)
                &&& key == KeyPress::Backspace ==> *final(self) == (Browser {
                    buffer: final(self).buffer,
                    ..*old(self)
                }) && final(self).buffer@ == (if old(self).buffer@.len() > 0 {
                    old(self).buffer@.drop_last()
                } else {
                    old(self).buffer@
                })
                &&& (key == KeyPress::Up || key == KeyPress::Down || key == KeyPress::Left || key
                    == KeyPress::Right || key == KeyPress::Other) ==> *final(self) == *old(self)
                &&& key == KeyPress::Enter ==> {
                    &&& final(self).input_mode is Normal
                    &&& final(self).buffer@.len() == 0
                    &&& final(self).mode == old(self).mode
                    &&& final(self).show_help == old(self).show_help
                    &&& final(self).exit == old(self).exit
                    &&& (old(self).mode is Day && f is Date) ==> final(self).option_day == (
                    OptionDay {
                        date: Date { days: committed_date(old(self).buffer@, old(self).option_day.date) as i32 },
                        ..old(self).option_day
                    }) && same_option_app(old(self).option_app, final(self).option_app)
                    &&& (old(self).mode is Day && !(f is Date)) ==> same_options(
                        *old(self),
                        *final(self),
                    )
                    &&& (old(self).mode is App && f is Date) ==> final(self).option_day == old(self).option_day && final(self).option_app.app == old(self).option_app.app && final(self).option_app.number == old(self).option_app.number && final(self).option_app.reverse == old(self).option_app.reverse && final(self).option_app.index_bar == old(self).option_app.index_bar && final(self).option_app.date.days == committed_date(
                        old(self).buffer@,
                        old(self).option_app.date,
                    )
                    &&& (old(self).mode is App && f is Count) ==> final(self).option_day == old(self).option_day && final(self).option_app.app == old(self).option_app.app && final(self).option_app.date == old(self).option_app.date && final(self).option_app.reverse == old(self).option_app.reverse && final(self).option_app.index_bar == old(self).option_app.index_bar && final(self).option_app.number == (match parse_u16_spec(old(self).buffer@) {
                        Some(n) => n,
                        None => old(self).option_app.number,
                    })
                    &&& (old(self).mode is App && f is AppName) ==> final(self).option_day == old(self).option_day && final(self).option_app.date == old(self).option_app.date
                        && final(self).option_app.number == old(self).option_app.number && final(self).option_app.reverse == old(self).option_app.reverse && final(self).option_app.index_bar == old(self).option_app.index_bar && final(self).option_app.app@ == (if store.is_tracked(old(self).buffer@) {
                        old(self).buffer@
                    } else {
                        old(self).option_app.app@
                    })
                }
            }),
            (!old(self).show_help && old(self).input_mode is Normal) ==> {
                &&& (key == KeyPress::Character('q') || key == KeyPress::Escape) ==> *final(self)
                    == (Browser { exit: true, ..*old(self) })
                &&& key == KeyPress::Character('m') ==> *final(self) == (Browser {
                    mode: if old(self).mode is Day {
                        Mode::App
                    } else {
                        Mode::Day
                    },
                    ..*old(self)
                })
                &&& key == KeyPress::Character('?') ==> *final(self) == (Browser {
                    show_help: true,
                    ..*old(self)
                })
                &&& old(self).mode is Day ==> day_mode_step(*old(self), *final(self), key, today)
                &&& old(self).mode is App ==> app_mode_step(*old(self), *final(self), key, today)
            },
    {
        if self.show_help {
            match key {
                KeyPress::Character('q') | KeyPress::Escape => {
                    self.show_help = false;
                },
                _ => {},
            }
            return ;
        }
        match self.input_mode {
            InputMode::Editing(field) => {
                match key {
                    KeyPress::Escape => {
                        self.input_mode = InputMode::Normal;
                        self.buffer = String::new();
                    },
                    KeyPress::Character(c) => {
                        push_char(&mut self.buffer, c);
                    },
                    KeyPress::Backspace => {
                        pop_char(&mut self.buffer);
                    },
                    KeyPress::Enter => {
                        self.valide_input(store, field);
                    },
                    _ => {},
                }
            },
            InputMode::Normal => {
                match self.mode {
                    Mode::Day => {
                        match key {
                            KeyPress::Character('q') | KeyPress::Escape => {
                                self.exit = true;
                            },
                            KeyPress::Character('m') => {
                                self.mode = Mode::App;
                            },
                            KeyPress::Character('r') => {
                                self.option_day.reverse = !self.option_day.reverse;
                            },
                            KeyPress::Character('d') => {
                                self.input_mode = InputMode::Editing(EditField::Date);
                                self.buffer = self.option_day.date.text();
                            },
                            KeyPress::Character('t') => {
                                self.option_day.date = today;
                            },
                            KeyPress::Up | KeyPress::Character('k') => {
                                self.option_day.date = self.option_day.date.next_day();
                            },
                            KeyPress::Down | KeyPress::Character('j') => {
                                self.option_day.date = self.option_day.date.prev_day();
                            },
                            KeyPress::Right | KeyPress::Character('l') => {
                                if self.option_day.index_bar < usize::MAX {
                                    self.option_day.index_bar = self.option_day.index_bar + 1;
                                }
                            },
                            KeyPress::Left | KeyPress::Character('h') => {
                                if self.option_day.index_bar > 0 {
                                    self.option_day.index_bar = self.option_day.index_bar - 1;
                                }
                            },
                            KeyPress::Character('?') => {
                                self.show_help = true;
                            },
                            _ => {},
                        }
                    },
                    Mode::App => {
                        match key {
                            KeyPress::Character('q') | KeyPress::Escape => {
                                self.exit = true;
                            },
                            KeyPress::Character('m') => {
                                self.mode = Mode::Day;
                            },
                            KeyPress::Character('r') => {
                                self.option_app.reverse = !self.option_app.reverse;
                            },
                            KeyPress::Character('d') => {
                                self.input_mode = InputMode::Editing(EditField::Date);
                                self.buffer = self.option_app.date.text();
                            },
                            KeyPress::Character('n') => {
                                self.input_mode = InputMode::Editing(EditField::Count);
                            },
                            KeyPress::Character('a') => {
                                self.input_mode = InputMode::Editing(EditField::AppName);
                            },
                            KeyPress::Character('t') => {
                                self.option_app.date = today;
                            },
                            KeyPress::Up | KeyPress::Character('k') => {
                                self.option_app.date = self.option_app.date.next_day();
                            },
                            KeyPress::Down | KeyPress::Character('j') => {
                                self.option_app.date = self.option_app.date.prev_day();
                            },
                            KeyPress::Right | KeyPress::Character('l') => {
                                if self.option_app.index_bar < usize::MAX {
                                    self.option_app.index_bar = self.option_app.index_bar + 1;
                                }
                            },
                            KeyPress::Left | KeyPress::Character('h') => {
                                if self.option_app.index_bar > 0 {
                                    self.option_app.index_bar = self.option_app.index_bar - 1;
                                }
                            },
                            KeyPress::Character('?') => {
                                self.show_help = true;
                            },
                            _ => {},
                        }
                    },
                }
            },
        }
    }

    /// Commits the modal buffer into the field it edits; a value that
    /// does not parse — or an application that is not tracked —
    /// leaves the previous value.
    fn valide_input(&mut self, store: &Store, field: EditField)
        requires
            old(self).wf(*store),
            store.wf(),
        ensures
            final(self).wf(*store),
            final(self).input_mode is Normal,
            final(self).buffer@.len() == 0,
            final(self).mode == old(self).mode,
            final(self).show_help == old(self).show_help,
            final(self).exit == old(self).exit,
            (old(self).mode is Day && field is Date) ==> final(self).option_day == (OptionDay {
                date: Date { days: committed_date(old(self).buffer@, old(self).option_day.date) as i32 },
                ..old(self).option_day
            }) && same_option_app(old(self).option_app, final(self).option_app),
            (old(self).mode is Day && !(field is Date)) ==> same_options(*old(self), *final(self)),
            (old(self).mode is App && field is Date) ==> final(self).option_day == old(self).option_day && final(self).option_app.app == old(self).option_app.app && final(self).option_app.number == old(self).option_app.number && final(self).option_app.reverse
                == old(self).option_app.reverse && final(self).option_app.index_bar == old(self).option_app.index_bar && final(self).option_app.date.days == committed_date(
                old(self).buffer@,
                old(self).option_app.date,
            ),
            (old(self).mode is App && field is Count) ==> final(self).option_day == old(self).option_day && final(self).option_app.app == old(self).option_app.app && final(self).option_app.date == old(self).option_app.date && final(self).option_app.reverse == old(self).option_app.reverse && final(self).option_app.index_bar == old(self).option_app.index_bar && final(self).option_app.number == (match parse_u16_spec(
                old(self).buffer@,
            ) {
                Some(n) => n,
                None => old(self).option_app.number,
            }),
            (old(self).mode is App && field is AppName) ==> final(self).option_day == old(self).option_day && final(self).option_app.date == old(self).option_app.date && final(self).option_app.number == old(self).option_app.number && final(self).option_app.reverse
                == old(self).option_app.reverse && final(self).option_app.index_bar == old(self).option_app.index_bar && final(self).option_app.app@ == (if store.is_tracked(
                old(self).buffer@,
            ) {
                old(self).buffer@
            } else {
                old(self).option_app.app@
            }),
    {
        match self.mode {
            Mode::Day => {
                if matches!(field, EditField::Date) {
                    match crate::dates::parse_iso_date(self.buffer.as_str()) {
                        Some(dt) => {
                            self.option_day.date = dt;
                        },
                        None => {},
                    }
                }
            },
            Mode::App => {
                match field {
                    EditField::Date => {
                        match crate::dates::parse_iso_date(self.buffer.as_str()) {
                            Some(dt) => {
                                self.option_app.date = dt;
                            },
                            None => {},
                        }
                    },
                    EditField::Count => {
                        match parse_u16(self.buffer.as_str()) {
                            Some(n) => {
                                self.option_app.number = n;
                            },
                            None => {},
                        }
                    },
                    EditField::AppName => {
                        if store.contain_names(self.buffer.as_str()) {
                            self.option_app.app = self.buffer.clone();
                        }
                    },
                }
            },
        }
        self.input_mode = InputMode::Normal;
        self.buffer = String::new();
    }
}

/// What the buffer commits to as a count: the parsed value when the
/// buffer is a decimal numeral that fits sixteen bits.
pub open spec fn parse_u16_spec(s: Seq<char>) -> Option<u16> {
    if s.len() > 0 && crate::numfmt::all_digits(s) && crate::numfmt::dec_val(s) <= u16::MAX {
        Some(crate::numfmt::dec_val(s) as u16)
    } else {
        None
    }
}

/// One key press in the day view's normal state: quitting, switching,
/// reversing, editing, stepping the date or scrolling.
pub open spec fn day_mode_step(pre: Browser, post: Browser, key: KeyPress, today: Date) -> bool {
    &&& key == KeyPress::Character('r') ==> post == (Browser {
        option_day: OptionDay { reverse: !pre.option_day.reverse, ..pre.option_day },
        ..pre
    })
    &&& key == KeyPress::Character('d') ==> post.mode == pre.mode && same_options(pre, post)
        && post.show_help == pre.show_help && post.exit == pre.exit && post.input_mode
        == InputMode::Editing(EditField::Date) && post.buffer@ == date_chars(
        pre.option_day.date.days as int,
    )
    &&& key == KeyPress::Character('t') ==> post == (Browser {
        option_day: OptionDay { date: today, ..pre.option_day },
        ..pre
    })
    &&& (key == KeyPress::Up || key == KeyPress::Character('k')) ==> post == (Browser {
        option_day: OptionDay {
            date: Date {
                days: if pre.option_day.date.days < DAY_MAX {
                    pre.option_day.date.days + 1
                } else {
                    pre.option_day.date.days as int
                } as i32,
            },
            ..pre.option_day
        },
        ..pre
    })
    &&& (key == KeyPress::Down || key == KeyPress::Character('j')) ==> post == (Browser {
        option_day: OptionDay {
            date: Date {
                days: if pre.option_day.date.days > DAY_MIN {
                    pre.option_day.date.days - 1
                } else {
                    pre.option_day.date.days as int
                } as i32,
            },
            ..pre.option_day
        },
        ..pre
    })
    &&& (key == KeyPress::Right || key == KeyPress::Character('l')) ==> post == (Browser {
        option_day: OptionDay {
            index_bar: if pre.option_day.index_bar < usize::MAX {
                pre.option_day.index_bar + 1
            } else {
                pre.option_day.index_bar as int
            } as usize,
            ..pre.option_day
        },
        ..pre
    })
    &&& (key == KeyPress::Left || key == KeyPress::Character('h')) ==> post == (Browser {
        option_day: OptionDay {
            index_bar: if pre.option_day.index_bar > 0 {
                pre.option_day.index_bar - 1
            } else {
                0
            } as usize,
            ..pre.option_day
        },
        ..pre
    })
    &&& (key == KeyPress::Enter || key == KeyPress::Backspace || key == KeyPress::Other) ==> post
        == pre
    &&& key matches KeyPress::Character(c) ==> (c != 'q' && c != 'm' && c != 'r' && c != 'd' && c
        != 't' && c != 'k' && c != 'j' && c != 'l' && c != 'h' && c != '?') ==> post == pre
}

/// One key press in the application view's normal state: as the day
/// view, plus opening the count and application edits.
pub open spec fn app_mode_step(pre: Browser, post: Browser, key: KeyPress, today: Date) -> bool {
    &&& key == KeyPress::Character('r') ==> post.mode == pre.mode && post.option_day
        == pre.option_day && post.option_app.app == pre.option_app.app && post.option_app.date
        == pre.option_app.date && post.option_app.number == pre.option_app.number
        && post.option_app.reverse == !pre.option_app.reverse && post.option_app.index_bar
        == pre.option_app.index_bar && post.input_mode == pre.input_mode && post.buffer
        == pre.buffer && post.show_help == pre.show_help && post.exit == pre.exit
    &&& key == KeyPress::Character('d') ==> post.mode == pre.mode && same_options(pre, post)
        && post.show_help == pre.show_help && post.exit == pre.exit && post.input_mode
        == InputMode::Editing(EditField::Date) && post.buffer@ == date_chars(
        pre.option_app.date.days as int,
    )
    &&& key == KeyPress::Character('n') ==> post == (Browser {
        input_mode: InputMode::Editing(EditField::Count),
        ..pre
    })
    &&& key == KeyPress::Character('a') ==> post == (Browser {
        input_mode: InputMode::Editing(EditField::AppName),
        ..pre
    })
    &&& key == KeyPress::Character('t') ==> post.mode == pre.mode && post.option_day
        == pre.option_day && post.option_app.app == pre.option_app.app && post.option_app.date
        == today && post.option_app.number == pre.option_app.number && post.option_app.reverse
        == pre.option_app.reverse && post.option_app.index_bar == pre.option_app.index_bar
        && post.input_mode == pre.input_mode && post.buffer == pre.buffer && post.show_help
        == pre.show_help && post.exit == pre.exit
    &&& (key == KeyPress::Up || key == KeyPress::Character('k')) ==> post.option_app.date.days
        == (if pre.option_app.date.days < DAY_MAX {
        pre.option_app.date.days + 1
    } else {
        pre.option_app.date.days as int
    }) && unchanged_but_app_date(pre, post)
    &&& (key == KeyPress::Down || key == KeyPress::Character('j')) ==> post.option_app.date.days
        == (if pre.option_app.date.days > DAY_MIN {
        pre.option_app.date.days - 1
    } else {
        pre.option_app.date.days as int
    }) && unchanged_but_app_date(pre, post)
    &&& (key == KeyPress::Right || key == KeyPress::Character('l')) ==> post.option_app.index_bar
        as int == (if pre.option_app.index_bar < usize::MAX {
        pre.option_app.index_bar + 1
    } else {
        pre.option_app.index_bar as int
    }) && unchanged_but_app_scroll(pre, post)
    &&& (key == KeyPress::Left || key == KeyPress::Character('h')) ==> post.option_app.index_bar
        as int == (if pre.option_app.index_bar > 0 {
        pre.option_app.index_bar - 1
    } else {
        0
    }) && unchanged_but_app_scroll(pre, post)
    &&& (key == KeyPress::Enter || key == KeyPress::Backspace || key == KeyPress::Other) ==> post
        == pre
    &&& key matches KeyPress::Character(c) ==> (c != 'q' && c != 'm' && c != 'r' && c != 'd' && c
        != 'n' && c != 'a' && c != 't' && c != 'k' && c != 'j' && c != 'l' && c != 'h' && c != '?')
        ==> post == pre
}

/// Only the application view's date may differ.
pub open spec fn unchanged_but_app_date(pre: Browser, post: Browser) -> bool {
    &&& post.mode == pre.mode
    &&& post.option_day == pre.option_day
    &&& post.option_app.app == pre.option_app.app
    &&& post.option_app.number == pre.option_app.number
    &&& post.option_app.reverse == pre.option_app.reverse
    &&& post.option_app.index_bar == pre.option_app.index_bar
    &&& post.input_mode == pre.input_mode
    &&& post.buffer == pre.buffer
    &&& post.show_help == pre.show_help
    &&& post.exit == pre.exit
}

/// The chart width given to each bar: the budget split over one more
/// than the bar count, floored at five columns.
pub open spec fn bar_width_of(budget: int, n: int) -> int {
    let q = budget / (n + 1);
    if q >= 5 {
        q
    } else {
        5
    }
}

/// How many bars fit the budget at that width, clamped between one
/// and the bar count.
pub open spec fn fit_of(budget: int, n: int) -> int {
    let f = budget / (bar_width_of(budget, n) + 1);
    if f < 1 {
        1
    } else if f > n {
        n
    } else {
        f
    }
}

/// The visible window's first index: the scroll position, pulled back
/// so that a full page stays visible at the right edge.
pub open spec fn start_of(scroll: int, budget: int, n: int) -> int {
    let f = fit_of(budget, n);
    if scroll > n - f {
        n - f
    } else {
        scroll
    }
}

/// The effective lookback for a query anchored at `date`: the
/// requested count, shortened so the window stays on representable
/// dates.
pub open spec fn eff_lookback(date: Date, number: u16) -> int {
    if number <= date.days - DAY_MIN {
        number as int
    } else {
        date.days - DAY_MIN
    }
}

/// One bar of the chart: its label, raw value and printed duration.
pub struct BarDatum {
    pub label: String,
    pub value: u16,
    pub text: String,
}

/// Everything one frame of the chart needs: the bars, the visible
/// window, the bar width, the overflow indicators and the scale
/// maximum.
pub struct ChartModel {
    pub bars: Vec<BarDatum>,
    pub start: usize,
    pub end: usize,
    pub bar_width: u16,
    pub more_left: bool,
    pub more_right: bool,
    pub max_value: u16,
}

/// Only the application view's scroll position may differ.
pub open spec fn unchanged_but_app_scroll(pre: Browser, post: Browser) -> bool {
    &&& post.mode == pre.mode
    &&& post.option_day == pre.option_day
    &&& post.option_app.app == pre.option_app.app
    &&& post.option_app.date == pre.option_app.date
    &&& post.option_app.number == pre.option_app.number
    &&& post.option_app.reverse == pre.option_app.reverse
    &&& post.input_mode == pre.input_mode
    &&& post.buffer == pre.buffer
    &&& post.show_help == pre.show_help
    &&& post.exit == pre.exit
}

/// Orders a query result for the chart: the day view by duration
/// (descending unless reversed), the application view by date, which
/// its series already carries (most recent first; reversing it puts
/// the oldest first).
fn arrange_chart_data(data: Vec<TimeApp>, is_day: bool, rev: bool) -> (r: Vec<TimeApp>)
    ensures
        r@.len() == data@.len(),
        is_day ==> {
            &&& r@.to_multiset() == data@.to_multiset()
            &&& (forall|i: int| 0 <= i < r@.len() ==> data@.contains(#[trigger] r@[i]))
            &&& (rev ==> sorted_asc(r@))
            &&& (!rev ==> sorted_desc(r@))
        },
        !is_day && !rev ==> r@ == data@,
        !is_day && rev ==> forall|i: int|
            0 <= i < r@.len() ==> #[trigger] r@[i] == data@[data@.len() - 1 - i],
{
    broadcast use vstd::seq_lib::group_to_multiset_ensures;

    if is_day {
        let s = sort_by_minutes_desc(data);
        if rev {
            let ghost s0 = s@;
            let r = reverse_vec(s);
            proof {
                assert(r@ =~= s0.reverse());
                s0.lemma_reverse_to_multiset();
                assert forall|i: int| 0 <= i < r@.len() implies data@.contains(
                    #[trigger] r@[i],
                ) by {
                    assert(r@[i] == s0[s0.len() - 1 - i]);
                    assert(data@.to_multiset().count(r@[i]) > 0);
                }
                assert(sorted_asc(r@)) by {
                    assert forall|a: int, b: int|
                        0 <= a < b < r@.len() implies r@[a].min_total <= r@[b].min_total by {
                        assert(r@[a] == s0[s0.len() - 1 - a]);
                        assert(r@[b] == s0[s0.len() - 1 - b]);
                    }
                }
            }
            r
        } else {
            s
        }
    } else {
        if rev {
            reverse_vec(data)
        } else {
            data
        }
    }
}

impl Browser {
    /// Clamps the requested lookback so the query window stays on
    /// representable dates.
    pub fn effective_lookback(date: Date, number: u16) -> (r: u16)
        requires
            date.wf(),
        ensures
            r as int == eff_lookback(date, number),
            date.days - r >= DAY_MIN,
            r <= number,
    {
        if number as i32 <= date.days - DAY_MIN {
            number
        } else {
            (date.days - DAY_MIN) as u16
        }
    }

    /// The current view's fresh query result: the day breakdown in
    /// registry order, or the observed application's series, most
    /// recent first.
    pub fn get_data(&self, store: &Store) -> (r: Vec<TimeApp>)
        requires
            self.wf(*store),
            store.wf(),
        ensures
            r@.len() >= 1,
            forall|i: int| 0 <= i < r@.len() ==> entry_wf(#[trigger] r@[i]),
            self.mode is Day ==> r@ == day_entries(*store, self.option_day.date),
            self.mode is App ==> {
                let eff = eff_lookback(self.option_app.date, self.option_app.number);
                &&& r@.len() == eff + 1
                &&& forall|i: int|
                    0 <= i < r@.len() ==> {
                        let e = #[trigger] r@[i];
                        &&& e.date.days == self.option_app.date.days - i
                        &&& e.name@ == self.option_app.app@
                        &&& e.min_total as int == store.minutes_on(
                            self.option_app.date.days - i,
                            store.col_of(self.option_app.app@),
                        )
                    }
            },
    {
        match self.mode {
            Mode::Day => {
                let r = store.get_time_day(self.option_day.date);
                proof {
                    assert forall|i: int| 0 <= i < r@.len() implies entry_wf(#[trigger] r@[i]) by {
                        assert(r@[i].date == self.option_day.date);
                    }
                }
                r
            },
            Mode::App => {
                let eff = Browser::effective_lookback(self.option_app.date, self.option_app.number);
                match store.get_time_app(self.option_app.app.as_str(), self.option_app.date, eff) {
                    Ok(v) => v,
                    Err(_) => unreached(),
                }
            },
        }
    }

    /// The visible bar window for a chart of `number_elements` bars
    /// in a `*widths`-column budget: splits the budget into bars at
    /// least five columns wide, clamps the current scroll position so
    /// a full page stays visible and no index reaches past the data,
    /// stores the clamped position back, and leaves the bar width in
    /// `*widths`.
    pub fn slice_bars(&mut self, number_elements: usize, widths: &mut u16) -> (r: (usize, usize))
        requires
            1 <= number_elements <= 0x1000_0000,
        ensures
            *final(widths) as int == bar_width_of(*old(widths) as int, number_elements as int),
            r.0 as int == start_of(
                if old(self).mode is Day {
                    old(self).option_day.index_bar as int
                } else {
                    old(self).option_app.index_bar as int
                },
                *old(widths) as int,
                number_elements as int,
            ),
            r.1 as int == r.0 + fit_of(*old(widths) as int, number_elements as int) - 1,
            r.0 <= r.1 < number_elements,
            final(self).mode == old(self).mode,
            final(self).input_mode == old(self).input_mode,
            final(self).buffer == old(self).buffer,
            final(self).show_help == old(self).show_help,
            final(self).exit == old(self).exit,
            old(self).mode is Day ==> final(self).option_day == (OptionDay {
                index_bar: r.0,
                ..old(self).option_day
            }) && same_option_app(old(self).option_app, final(self).option_app),
            old(self).mode is App ==> final(self).option_day == old(self).option_day
                && final(self).option_app.app == old(self).option_app.app && final(self).option_app.date == old(self).option_app.date && final(self).option_app.number == old(self).option_app.number && final(self).option_app.reverse == old(self).option_app.reverse
                && final(self).option_app.index_bar == r.0,
    {
        let budget = *widths as usize;
        let mut w: usize = budget / (number_elements + 1);
        if w < 5 {
            w = 5;
        }
        let mut fit: usize = budget / (w + 1);
        if fit < 1 {
            fit = 1;
        }
        if fit > number_elements {
            fit = number_elements;
        }
        let scroll = match self.mode {
            Mode::Day => self.option_day.index_bar,
            Mode::App => self.option_app.index_bar,
        };
        let start = if scroll > number_elements - fit {
            number_elements - fit
        } else {
            scroll
        };
        match self.mode {
            Mode::Day => {
                self.option_day.index_bar = start;
            },
            Mode::App => {
                self.option_app.index_bar = start;
            },
        }
        *widths = w as u16;
        (start, start + fit - 1)
    }

    /// One frame of the chart for the current view: the day view's
    /// bars ordered by duration (busiest first unless reversed), the
    /// application view's by date (most recent first unless
    /// reversed), each labelled and captioned, with the visible
    /// window clamped to the data.
    pub fn chart_model(&mut self, store: &Store, width: u16) -> (r: ChartModel)
        requires
            old(self).wf(*store),
            store.wf(),
            old(self).mode is Day ==> store.columns@.len() <= 0x1000_0000,
        ensures
            final(self).wf(*store),
            r.bars@.len() == (if old(self).mode is Day {
                store.columns@.len() as int
            } else {
                eff_lookback(old(self).option_app.date, old(self).option_app.number) + 1
            }),
            r.start <= r.end < r.bars@.len(),
            r.bar_width as int == bar_width_of(width as int, r.bars@.len() as int),
            r.start as int == start_of(
                if old(self).mode is Day {
                    old(self).option_day.index_bar as int
                } else {
                    old(self).option_app.index_bar as int
                },
                width as int,
                r.bars@.len() as int,
            ),
            r.end as int == r.start + fit_of(width as int, r.bars@.len() as int) - 1,
            r.more_left == (r.start > 0),
            r.more_right == (r.end < r.bars@.len() - 1),
            forall|i: int|
                0 <= i < r.bars@.len() ==> (#[trigger] r.bars@[i]).text@ == crate::timefmt::time_chars(
                    r.bars@[i].value as int,
                ),
            forall|i: int| 0 <= i < r.bars@.len() ==> (#[trigger] r.bars@[i]).value <= r.max_value,
            exists|i: int| 0 <= i < r.bars@.len() && (#[trigger] r.bars@[i]).value == r.max_value,
            final(self).mode == old(self).mode,
            final(self).input_mode == old(self).input_mode,
            final(self).buffer == old(self).buffer,
            final(self).show_help == old(self).show_help,
            final(self).exit == old(self).exit,
            old(self).mode is Day ==> final(self).option_day == (OptionDay {
                index_bar: r.start,
                ..old(self).option_day
            }) && same_option_app(old(self).option_app, final(self).option_app),
            old(self).mode is App ==> final(self).option_day == old(self).option_day
                && final(self).option_app.app == old(self).option_app.app && final(self).option_app.date == old(self).option_app.date && final(self).option_app.number == old(self).option_app.number && final(self).option_app.reverse == old(self).option_app.reverse
                && final(self).option_app.index_bar == r.start,
            old(self).mode is Day ==> exists|p: Seq<TimeApp>|
                {
                    &&& #[trigger] p.to_multiset() == day_entries(
                        *store,
                        old(self).option_day.date,
                    ).to_multiset()
                    &&& if old(self).option_day.reverse {
                        sorted_asc(p)
                    } else {
                        sorted_desc(p)
                    }
                    &&& r.bars@.len() == p.len()
                    &&& forall|i: int|
                        0 <= i < p.len() ==> (#[trigger] r.bars@[i]).label == p[i].name
                            && r.bars@[i].value == p[i].min_total
                },
            old(self).mode is App ==> {
                let eff = eff_lookback(old(self).option_app.date, old(self).option_app.number);
                let col = store.col_of(old(self).option_app.app@);
                forall|i: int|
                    0 <= i < r.bars@.len() ==> {
                        let day = if old(self).option_app.reverse {
                            old(self).option_app.date.days - eff + i
                        } else {
                            old(self).option_app.date.days - i
                        };
                        &&& (#[trigger] r.bars@[i]).label@ == crate::dates::month_day_chars(day)
                        &&& r.bars@[i].value as int == store.minutes_on(day, col)
                    }
            },
    {
        let data = self.get_data(store);
        let is_day = matches!(self.mode, Mode::Day);
        let rev = self.is_reverse();
        let ghost orig_data = data@;
        let sorted = arrange_chart_data(data, is_day, rev);
        proof {
            assert forall|i2: int|
                0 <= i2 < sorted@.len() implies entry_wf(#[trigger] sorted@[i2]) by {
                if is_day {
                    assert(orig_data.contains(sorted@[i2]));
                } else if rev {
                    assert(sorted@[i2] == orig_data[orig_data.len() - 1 - i2]);
                }
            }
        }
        let n = sorted.len();
        let mut max_value: u16 = sorted[0].min_total;
        let mut i: usize = 1;
        while i < n
            invariant
                n == sorted@.len(),
                1 <= i <= n,
                forall|k: int| 0 <= k < i ==> (#[trigger] sorted@[k]).min_total <= max_value,
                exists|k: int| 0 <= k < i && (#[trigger] sorted@[k]).min_total == max_value,
            decreases n - i,
        {
            if sorted[i].min_total > max_value {
                max_value = sorted[i].min_total;
            }
            i = i + 1;
        }
        let mut bars: Vec<BarDatum> = Vec::new();
        let m = sorted.len();
        let mut i: usize = 0;
        while i < m
            invariant
                m == sorted@.len(),
                0 <= i <= m,
                bars@.len() == i,
                forall|k: int| 0 <= k < m ==> entry_wf(#[trigger] sorted@[k]),
                is_day == (self.mode is Day),
                forall|k: int|
                    0 <= k < i ==> {
                        let b = #[trigger] bars@[k];
                        &&& b.value == sorted@[k].min_total
                        &&& b.text@ == crate::timefmt::time_chars(b.value as int)
                        &&& is_day ==> b.label == sorted@[k].name
                        &&& !is_day ==> b.label@ == crate::dates::month_day_chars(
                            sorted@[k].date.days as int,
                        )
                    },
            decreases m - i,
        {
            let label = if is_day {
                sorted[i].name.clone()
            } else {
                sorted[i].date.month_day_text()
            };
            let text = sorted[i].time.text();
            bars.push(BarDatum { label, value: sorted[i].min_total, text });
            i = i + 1;
        }
        proof {
            let k = choose|k: int|
                0 <= k < sorted@.len() && (#[trigger] sorted@[k]).min_total == max_value;
            assert(bars@[k].value == max_value);
            assert(exists|i2: int|
                0 <= i2 < bars@.len() && (#[trigger] bars@[i2]).value == max_value);
        }
        let mut w: u16 = width;
        let (start, end) = self.slice_bars(bars.len(), &mut w);
        let more_left = start > 0;
        let more_right = end < bars.len() - 1;
        let model = ChartModel { bars, start, end, bar_width: w, more_left, more_right, max_value };
        proof {
            let k = choose|k: int|
                0 <= k < sorted@.len() && (#[trigger] sorted@[k]).min_total == max_value;
            assert((#[trigger] model.bars@[k]).value == model.max_value);
        }
        model
    }

    /// The statistics strip of the application view, over the same
    /// series the chart shows.
    pub fn stats(&self, store: &Store) -> (r: Stat)
        requires
            self.wf(*store),
            store.wf(),
            self.mode is App,
        ensures
            exists|v: Seq<TimeApp>|
                {
                    let eff = eff_lookback(self.option_app.date, self.option_app.number);
                    let col = store.col_of(self.option_app.app@);
                    &&& #[trigger] v.len() == eff + 1
                    &&& (forall|i: int|
                        0 <= i < v.len() ==> (#[trigger] v[i]).min_total as int == store.minutes_on(
                            self.option_app.date.days - i,
                            col,
                        ))
                    &&& r.max.wf() && r.max.minutes() == crate::stats::spec_max(v)
                    &&& r.min.wf() && r.min.minutes() == crate::stats::spec_min(v)
                    &&& r.sum.wf() && r.sum.minutes() == crate::stats::spec_sum(v)
                    &&& r.mean.wf() && r.mean.minutes() == crate::stats::spec_mean(v)
                },
    {
        let data = self.get_data(store);
        let r = Stat::new(&data);
        proof {
            let v = data@;
            assert(v.len() == eff_lookback(self.option_app.date, self.option_app.number) + 1);
        }
        r
    }
}

} // verus!
