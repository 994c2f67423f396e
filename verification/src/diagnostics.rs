use std::collections::VecDeque;
use std::time::{Duration, SystemTime, UNIX_EPOCH};

use vstd::prelude::*;

verus! {

/// How many recent errors are kept.
pub const MAX_RECENT_ERRORS: usize = 100;

/// An error message with the time it was recorded.
#[derive(Debug)]
pub struct DiagnosticError {
    timestamp_unix_ms: u64,
    message: String,
}

impl View for DiagnosticError {
    type V = (u64, Seq<char>);

    closed spec fn view(&self) -> (u64, Seq<char>) {
        (self.timestamp_unix_ms, self.message@)
    }
}

impl DiagnosticError {
    /// An error recorded at `timestamp_unix_ms` milliseconds after the Unix
    /// epoch.
    pub fn new(timestamp_unix_ms: u64, message: String) -> (e: Self)
        ensures
            e@ == (timestamp_unix_ms, message@),
    {
        DiagnosticError { timestamp_unix_ms, message }
    }

    /// When the error was recorded, in milliseconds after the Unix epoch.
    pub fn timestamp_unix_ms(&self) -> (t: u64)
        ensures
            t == self@.0,
    {
        self.timestamp_unix_ms
    }

    /// The error's message.
    pub fn message(&self) -> (m: &str)
        ensures
            m@ == self@.1,
    {
        self.message.as_str()
    }

    /// A copy of the error.
    pub fn duplicate(&self) -> (e: Self)
        ensures
            e@ == self@,
    {
        DiagnosticError { timestamp_unix_ms: self.timestamp_unix_ms, message: self.message.clone() }
    }
}

/// The views of a list of errors.
pub open spec fn error_views(s: Seq<DiagnosticError>) -> Seq<(u64, Seq<char>)> {
    s.map_values(|e: DiagnosticError| e@)
}

/// The log after one more error: the oldest goes when the log is full.
pub open spec fn logged(log: Seq<(u64, Seq<char>)>, e: (u64, Seq<char>)) -> Seq<(u64, Seq<char>)> {
    if log.len() >= MAX_RECENT_ERRORS {
        log.drop_first().push(e)
    } else {
        log.push(e)
    }
}

/// The log after the errors `es`, recorded in order, starting from `log`.
pub open spec fn logged_all(log: Seq<(u64, Seq<char>)>, es: Seq<(u64, Seq<char>)>) -> Seq<
    (u64, Seq<char>),
>
    decreases es.len(),
{
    if es.len() == 0 {
        log
    } else {
        logged(logged_all(log, es.drop_last()), es.last())
    }
}

/// The most recent errors, oldest first, at most `MAX_RECENT_ERRORS`.
pub struct RecentErrors {
    errors: VecDeque<DiagnosticError>,
}

impl View for RecentErrors {
    type V = Seq<(u64, Seq<char>)>;

    closed spec fn view(&self) -> Seq<(u64, Seq<char>)> {
        error_views(self.errors@)
    }
}

impl RecentErrors {
    /// The log's invariant: it holds at most `MAX_RECENT_ERRORS` errors.
    pub closed spec fn wf(&self) -> bool {
        self.errors@.len() <= MAX_RECENT_ERRORS
    }

    /// An empty log.
    pub fn new() -> (log: Self)
        ensures
            log@ == Seq::<(u64, Seq<char>)>::empty(),
            log.wf(),
    {
        let log = RecentErrors { errors: VecDeque::new() };
        proof {
            assert(error_views(log.errors@) =~= Seq::<(u64, Seq<char>)>::empty());
        }
        log
    }

    /// How many errors the log holds.
    pub fn len(&self) -> (n: usize)
        ensures
            n == self@.len(),
    {
        self.errors.len()
    }

    /// Records an error; when the log is full the oldest one goes.
    pub fn record(&mut self, error: DiagnosticError)
        requires
            old(self).wf(),
        ensures
            final(self)@ == logged(old(self)@, error@),
            final(self).wf(),
    {
        let ghost before = self.errors@;
        if self.errors.len() == MAX_RECENT_ERRORS {
            let _ = self.errors.pop_front();
            proof {
                assert(error_views(self.errors@) =~= error_views(before).drop_first());
            }
        }
        let ghost middle = self.errors@;
        self.errors.push_back(error);
        proof {
            assert(error_views(self.errors@) =~= error_views(middle).push(error@));
        }
    }

    /// Copies of the errors, oldest first.
    pub fn recent_errors(&self) -> (v: Vec<DiagnosticError>)
        ensures
            error_views(v@) == self@,
    {
        let mut v: Vec<DiagnosticError> = Vec::new();
        let mut i: usize = 0;
        while i < self.errors.len()
            invariant
                i <= self.errors@.len(),
                error_views(v@) == error_views(self.errors@).take(i as int),
            decreases self.errors@.len() - i,
        {
            let e = self.errors[i].duplicate();
            let ghost before = v@;
            v.push(e);
            proof {
                assert(error_views(v@) =~= error_views(before).push(e@));
                assert(error_views(self.errors@).take(i + 1) =~= error_views(self.errors@).take(
                    i as int,
                ).push(e@));
            }
            i += 1;
        }
        proof {
            assert(error_views(self.errors@).take(self.errors@.len() as int) =~= error_views(
                self.errors@,
            ));
        }
        v
    }
}

/// The log never holds more than `MAX_RECENT_ERRORS` errors, and after any
/// run of recordings it holds the most recent ones in the order they were
/// recorded: the last `MAX_RECENT_ERRORS` of all errors recorded since it
/// was empty.
pub proof fn recent_errors_keep_the_latest(es: Seq<(u64, Seq<char>)>)
    ensures
        logged_all(seq![], es).len() <= MAX_RECENT_ERRORS,
        logged_all(seq![], es) == es.skip(
            if es.len() > MAX_RECENT_ERRORS { es.len() - MAX_RECENT_ERRORS } else { 0 },
        ),
    decreases es.len(),
{
    if es.len() > 0 {
        let rest = es.drop_last();
        recent_errors_keep_the_latest(rest);
        let k = if rest.len() > MAX_RECENT_ERRORS { rest.len() - MAX_RECENT_ERRORS } else { 0 };
        let k2 = if es.len() > MAX_RECENT_ERRORS { es.len() - MAX_RECENT_ERRORS } else { 0 };
        let log = rest.skip(k);
        if log.len() >= MAX_RECENT_ERRORS {
            assert(log.drop_first().push(es.last()) =~= es.skip(k2));
        } else {
            assert(log.push(es.last()) =~= es.skip(k2));
        }
    } else {
        assert(es.skip(0) =~= es);
    }
}

/// Milliseconds as a `u64`, held at `u64::MAX`; 0 when the clock reads
/// before the Unix epoch (`None`).
pub open spec fn millis_u64_spec(millis: Option<u128>) -> u64 {
    match millis {
        Some(ms) => if ms > u64::MAX { u64::MAX } else { ms as u64 },
        None => 0,
    }
}

/// Milliseconds since the Unix epoch as a `u64` (see `millis_u64_spec`).
pub fn millis_as_u64(millis: Option<u128>) -> (ms: u64)
    ensures
        ms == millis_u64_spec(millis),
{
    match millis {
        Some(ms) => if ms > u64::MAX as u128 {
            u64::MAX
        } else {
            ms as u64
        },
        None => 0,
    }
}

#[verifier::external_type_specification]
#[verifier::external_body]
pub struct ExSystemTime(SystemTime);

/// `SystemTime::now`: the system clock's reading, which nothing here can
/// predict; no property of it is stated.
#[verifier::external_body]
fn system_time_now() -> SystemTime {
    SystemTime::now()
}

/// `SystemTime::duration_since` with `UNIX_EPOCH`: the time since the
/// epoch, `None` when the reading lies before it. What the reading is
/// depends on the clock, so nothing more is stated.
#[verifier::external_body]
fn time_since_epoch(t: &SystemTime) -> Option<Duration> {
    match t.duration_since(UNIX_EPOCH) {
        Ok(d) => Some(d),
        Err(_) => None,
    }
}

/// `Duration::as_millis`: the whole milliseconds of a duration. The
/// duration's contents are not modelled, so its result is not stated.
#[verifier::external_body]
fn whole_millis(d: &Duration) -> u128 {
    d.as_millis()
}

/// The system clock in milliseconds since the Unix epoch, held at
/// `u64::MAX`, and 0 when the clock reads before the epoch. The reading
/// itself is the clock's, so the result is only known to be
/// `millis_as_u64` of it.
pub fn unix_time_ms() -> u64 {
    let now = system_time_now();
    let millis = match time_since_epoch(&now) {
        Some(d) => Some(whole_millis(&d)),
        None => None,
    };
    millis_as_u64(millis)
}

/// Extended window style: the window stays above non-topmost windows.
pub const WS_EX_TOPMOST: u32 = 0x0000_0008;

/// Extended window style: the window lets mouse input through.
pub const WS_EX_TRANSPARENT: u32 = 0x0000_0020;

/// Extended window style: the window is layered.
pub const WS_EX_LAYERED: u32 = 0x0008_0000;

/// Extended window style: the window is not redirected to a bitmap.
pub const WS_EX_NOREDIRECTIONBITMAP: u32 = 0x0020_0000;

/// Extended window style: clicking the window does not activate it.
pub const WS_EX_NOACTIVATE: u32 = 0x0800_0000;

/// What the window system answered about a window handle: whether it names
/// a window, whether that window is visible, its screen rectangle (when it
/// could be read) and its extended style bits.
pub struct WindowProbe {
    pub exists: bool,
    pub visible: bool,
    pub rect: Option<[i32; 4]>,
    pub ex_style: u32,
}

/// One window's entry in the diagnostics report.
pub struct WindowDiagnostic {
    pub source: String,
    pub role: String,
    pub hwnd: i64,
    pub exists: bool,
    pub visible: bool,
    pub topmost: bool,
    pub layered: bool,
    pub transparent_input: bool,
    pub no_activate: bool,
    pub no_redirection_bitmap: bool,
    pub rect: Option<[i32; 4]>,
    pub expected_rect: Option<[i32; 4]>,
    pub canvas_size: Option<[i32; 2]>,
}

/// Whether the style bits of a window that exists hold `style`; a handle
/// that names no window has no style.
pub open spec fn has_ex_style(probe: WindowProbe, style: u32) -> bool {
    probe.exists && probe.ex_style & style != 0
}

/// The diagnostics entry of the window `raw_hwnd`, from what the window
/// system answered about it (`None` where no window system is asked, which
/// reports the window as missing). Everything read from the window counts
/// only when the handle names a window.
pub fn inspect_window(
    source: &str,
    role: &str,
    raw_hwnd: i64,
    expected_rect: Option<[i32; 4]>,
    canvas_size: Option<[i32; 2]>,
    probe: Option<WindowProbe>,
) -> (d: WindowDiagnostic)
    ensures
        d.source@ == source@,
        d.role@ == role@,
        d.hwnd == raw_hwnd,
        d.expected_rect == expected_rect,
        d.canvas_size == canvas_size,
        match probe {
            Some(p) => {
                &&& d.exists == p.exists
                &&& d.visible == (p.exists && p.visible)
                &&& d.rect == (if p.exists { p.rect } else { None })
                &&& d.topmost == has_ex_style(p, WS_EX_TOPMOST)
                &&& d.layered == has_ex_style(p, WS_EX_LAYERED)
                &&& d.transparent_input == has_ex_style(p, WS_EX_TRANSPARENT)
                &&& d.no_activate == has_ex_style(p, WS_EX_NOACTIVATE)
                &&& d.no_redirection_bitmap == has_ex_style(p, WS_EX_NOREDIRECTIONBITMAP)
            },
            None => {
                &&& !d.exists && !d.visible && d.rect is None
                &&& !d.topmost && !d.layered && !d.transparent_input
                &&& !d.no_activate && !d.no_redirection_bitmap
            },
        },
{
    let (exists, visible, rect, ex_style) = match probe {
        Some(p) => if p.exists {
            (true, p.visible, p.rect, p.ex_style)
        } else {
            (false, false, None, 0u32)
        },
        None => (false, false, None, 0u32),
    };
    proof {
        assert(forall|style: u32| #[trigger] (0u32 & style) == 0) by (bit_vector);
    }
    WindowDiagnostic {
        source: source.to_owned(),
        role: role.to_owned(),
        hwnd: raw_hwnd,
        exists,
        visible,
        topmost: ex_style & WS_EX_TOPMOST != 0,
        layered: ex_style & WS_EX_LAYERED != 0,
        transparent_input: ex_style & WS_EX_TRANSPARENT != 0,
        no_activate: ex_style & WS_EX_NOACTIVATE != 0,
        no_redirection_bitmap: ex_style & WS_EX_NOREDIRECTIONBITMAP != 0,
        rect,
        expected_rect,
        canvas_size,
    }
}


} // verus!
