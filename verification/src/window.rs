//! Time-window resolution: turning partial `{start, end, length}` input into
//! an absolute start/end interval of naive unix timestamps.

use vstd::prelude::*;

verus! {

/// An absolute time interval, in naive unix seconds (no timezone attached).
/// A well-formed window never ends before it starts.
#[derive(Debug, Clone, Copy, PartialEq, Eq, Structural)]
pub struct Window {
    pub start: i64,
    pub end: i64,
}

impl Window {
    /// The interval runs forward: the start does not lie after the end.
    pub open spec fn well_formed(self) -> bool {
        self.start <= self.end
    }
}

/// A tagged duration. Months and years are deliberate approximations, not
/// calendar arithmetic: a month counts as 30 days and a year as 365 days.
#[derive(Debug, Clone, Copy, PartialEq, Eq, Structural)]
pub enum WindowLength {
    Seconds(i64),
    Minutes(i64),
    Hours(i64),
    Days(i64),
    Weeks(i64),
    Months(i64),
    Years(i64),
}

/// The duration of a `WindowLength` in seconds, as unbounded arithmetic.
pub open spec fn length_seconds(l: WindowLength) -> int {
    match l {
        WindowLength::Seconds(s) => s as int,
        WindowLength::Minutes(m) => m * 60,
        WindowLength::Hours(h) => h * 3600,
        WindowLength::Days(d) => d * 86400,
        WindowLength::Weeks(w) => w * 604800,
        WindowLength::Months(m) => m * 2592000,
        WindowLength::Years(y) => y * 31536000,
    }
}

/// Builder state for a window: any subset of start, end and length may be
/// given before `build` resolves them. The precedence among the three is part
/// of the contract of `build`, not a convenience.
#[derive(Debug, Clone, Copy, PartialEq, Eq)]
pub struct WindowBuilder {
    pub start: Option<i64>,
    pub end: Option<i64>,
    pub length: Option<WindowLength>,
}

/// Local civil time in seconds lies strictly within this bound either way:
/// the clock source spans years of at most six figures.
pub open spec fn now_bound() -> int {
    0x800_0000_0000
}

/// Relies on `chrono::Local::now` and `chrono::NaiveDateTime::timestamp`:
/// chrono documents that its dates span roughly years -262144 to 262143, so
/// the current local time in unix seconds stays strictly within 2^43 in
/// magnitude. Nothing else can be promised of a clock reading.
#[verifier::external_body]
fn current_local_timestamp() -> (r: i64)
    ensures
        -now_bound() < r < now_bound(),
{
    chrono::Local::now().naive_local().and_utc().timestamp()
}

/// Whether the duration arithmetic that `build` performs for this builder
/// state stays within `i64` (and, where a length is applied, is a true
/// duration: nonnegative, so the resolved window runs forward).
pub open spec fn build_arith_ok(b: WindowBuilder) -> bool {
    match (b.start, b.end, b.length) {
        (Some(_), Some(_), _) => true,
        (Some(s), None, Some(l)) => 0 <= length_seconds(l) <= i64::MAX && s + length_seconds(l)
            <= i64::MAX,
        (None, Some(e), Some(l)) => 0 <= length_seconds(l) <= i64::MAX && i64::MIN <= e
            - length_seconds(l),
        (None, None, Some(l)) => 0 <= length_seconds(l) <= 0x4000_0000_0000_0000,
        _ => true,
    }
}

/// The message `build` reports when start and end are given out of order.
pub open spec fn range_order_message() -> Seq<char> {
    "Start time must be before end time"@
}

/// The message `build` reports when no satisfiable combination was given.
pub open spec fn missing_parameters_message() -> Seq<char> {
    "Must provide either start and end or start and length"@
}

/// The seconds of a `WindowLength`, computed in `i64`.
fn length_seconds_exec(l: WindowLength) -> (r: i64)
    requires
        i64::MIN <= length_seconds(l) <= i64::MAX,
    ensures
        r == length_seconds(l),
{
    match l {
        WindowLength::Seconds(s) => s,
        WindowLength::Minutes(m) => m * 60,
        WindowLength::Hours(h) => h * 3600,
        WindowLength::Days(d) => d * 86400,
        WindowLength::Weeks(w) => w * 604800,
        WindowLength::Months(m) => m * 2592000,
        WindowLength::Years(y) => y * 31536000,
    }
}

impl WindowBuilder {
    /// A builder with nothing supplied yet.
    pub fn new() -> (r: Self)
        ensures
            r == (WindowBuilder { start: None, end: None, length: None }),
    {
        Self { start: None, end: None, length: None }
    }

    /// Supply the start of the window.
    pub fn start(self, start: i64) -> (r: Self)
        ensures
            r == (WindowBuilder { start: Some(start), ..self }),
    {
        Self { start: Some(start), ..self }
    }

    /// Supply the end of the window.
    pub fn end(self, end: i64) -> (r: Self)
        ensures
            r == (WindowBuilder { end: Some(end), ..self }),
    {
        Self { end: Some(end), ..self }
    }

    /// Supply the length of the window.
    pub fn length(self, length: WindowLength) -> (r: Self)
        ensures
            r == (WindowBuilder { length: Some(length), ..self }),
    {
        Self { length: Some(length), ..self }
    }

    /// Resolve the builder into an absolute window. The combinations are
    /// tried in this exact order, and the first satisfied one decides:
    /// start and end (validated, length ignored); start and length; end and
    /// length; length alone, anchored at the current local time. Anything
    /// else fails with a missing-parameters message.
    pub fn build(self) -> (r: Result<Window, String>)
        requires
            build_arith_ok(self),
        ensures
            match (self.start, self.end, self.length) {
                (Some(s), Some(e), _) => if s <= e {
                    r == Ok::<Window, String>(Window { start: s, end: e })
                } else {
                    (r matches Err(m) && m@ == range_order_message())
                },
                (Some(s), None, Some(l)) => (r matches Ok(w) && w.start == s && w.end
                    == s + length_seconds(l)),
                (None, Some(e), Some(l)) => (r matches Ok(w) && w.start == e - length_seconds(l)
                    && w.end == e),
                (None, None, Some(l)) => (r matches Ok(w) && w.end - w.start == length_seconds(l)
                    && -now_bound() < w.end < now_bound()),
                _ => (r matches Err(m) && m@ == missing_parameters_message()),
            },
            r matches Ok(w) ==> w.well_formed(),
    {
        match (self.start, self.end) {
            (Some(s), Some(e)) => {
                if s > e {
                    return Err("Start time must be before end time".to_owned());
                }
                return Ok(Window { start: s, end: e });
            },
            _ => {},
        }
        match (self.start, self.length) {
            (Some(s), Some(l)) => {
                let secs = length_seconds_exec(l);
                return Ok(Window { start: s, end: s + secs });
            },
            _ => {},
        }
        match (self.end, self.length) {
            (Some(e), Some(l)) => {
                let secs = length_seconds_exec(l);
                return Ok(Window { start: e - secs, end: e });
            },
            _ => {},
        }
        match self.length {
            Some(l) => {
                let now = current_local_timestamp();
                let secs = length_seconds_exec(l);
                Ok(Window { start: now - secs, end: now })
            },
            None => Err("Must provide either start and end or start and length".to_owned()),
        }
    }
}

impl Default for WindowBuilder {
    /// Same as `WindowBuilder::new`.
    fn default() -> (r: Self)
        ensures
            r == (WindowBuilder { start: None, end: None, length: None }),
    {
        Self::new()
    }
}

} // verus!
