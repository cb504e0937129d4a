//! The activity monitor: a blocklist policy over the foreground window, and
//! the bookkeeping of activity segments.

use vstd::prelude::*;
use vstd::string::StringExecFns;
use crate::text::chars_of;
use crate::timestamp::Timestamp;

verus! {

/// A span of time during which the foreground application, its window
/// title and the capture decision stayed the same.
#[derive(Clone, Debug)]
pub struct ActivityLog {
    pub start_time: Timestamp,
    pub end_time: Timestamp,
    pub app_name: String,
    pub window_title: String,
    pub is_captured: bool,
}

/// An activity segment as a mathematical value.
pub struct SegmentView {
    pub start_time: Timestamp,
    pub end_time: Timestamp,
    pub app_name: Seq<char>,
    pub window_title: Seq<char>,
    pub is_captured: bool,
}

impl SegmentView {
    /// Both timestamps are valid and the segment does not end before it
    /// starts.
    pub open spec fn wf(self) -> bool {
        &&& self.start_time.valid()
        &&& self.end_time.valid()
        &&& self.end_time.not_before(self.start_time)
    }

    /// The segment with its end moved to `now`, or left at its start
    /// where `now` lies before that.
    pub open spec fn ended_at(self, now: Timestamp) -> SegmentView {
        SegmentView { end_time: now.later_of(self.start_time), ..self }
    }
}

impl View for ActivityLog {
    type V = SegmentView;

    open spec fn view(&self) -> SegmentView {
        SegmentView {
            start_time: self.start_time,
            end_time: self.end_time,
            app_name: self.app_name@,
            window_title: self.window_title@,
            is_captured: self.is_captured,
        }
    }
}

/// The view of a segment that may be absent.
pub open spec fn segment_view(segment: Option<ActivityLog>) -> Option<SegmentView> {
    match segment {
        Some(s) => Some(s@),
        None => None,
    }
}

/// The foreground window as the window system reports it.
#[derive(Clone, Debug)]
pub struct WindowInfo {
    pub app_name: String,
    pub title: String,
}

/// What one look of the activity monitor decides: whether a frame may
/// be captured now, and the segment that was closed, to be appended to
/// the log.
#[derive(Debug)]
pub struct Verdict {
    pub permitted: bool,
    pub closed: Option<ActivityLog>,
}

/// `needle` stands in `hay` at index `i`.
pub open spec fn occurs_at(needle: Seq<char>, hay: Seq<char>, i: int) -> bool {
    0 <= i && i + needle.len() <= hay.len() && hay.subrange(i, i + needle.len()) == needle
}

/// `needle` stands somewhere in `hay`.
pub open spec fn is_substring(needle: Seq<char>, hay: Seq<char>) -> bool {
    exists|i: int| occurs_at(needle, hay, i)
}

/// One of `needles` stands somewhere in `hay`.
pub open spec fn any_substring(needles: Seq<Seq<char>>, hay: Seq<char>) -> bool {
    exists|k: int| 0 <= k < needles.len() && is_substring(#[trigger] needles[k], hay)
}

/// The lower-case form of a text, as `str::to_lowercase` gives it.
pub uninterp spec fn lowercase(s: Seq<char>) -> Seq<char>;

/// The lower-case form of `s`.
///
/// Calls `str::to_lowercase`, whose result follows the Unicode character
/// tables and depends on the text alone; the contract only names it.
#[verifier::external_body]
fn to_lowercase(s: &str) -> (r: String)
    ensures
        r@ == lowercase(s@),
{
    s.to_lowercase()
}

fn matches_at(hay: &Vec<char>, needle: &Vec<char>, i: usize) -> (r: bool)
    requires
        i + needle.len() <= hay.len(),
    ensures
        r == occurs_at(needle@, hay@, i as int),
{
    let mut j: usize = 0;
    while j < needle.len()
        invariant
            j <= needle.len(),
            i + needle.len() <= hay.len(),
            forall|k: int| 0 <= k < j ==> hay@[i + k] == needle@[k],
        decreases needle.len() - j,
    {
        if hay[i + j] != needle[j] {
            assert(hay@.subrange(i as int, i + needle.len())[j as int] != needle@[j as int]);
            return false;
        }
        j += 1;
    }
    assert(hay@.subrange(i as int, i + needle.len()) =~= needle@);
    true
}

/// Whether `needle` stands somewhere in `hay`.
pub fn contains(hay: &Vec<char>, needle: &Vec<char>) -> (r: bool)
    ensures
        r == is_substring(needle@, hay@),
{
    if needle.len() > hay.len() {
        return false;
    }
    let last = hay.len() - needle.len();
    let mut i: usize = 0;
    loop
        invariant
            i <= last,
            last == hay.len() - needle.len(),
            forall|k: int| 0 <= k < i ==> !occurs_at(needle@, hay@, k),
        decreases last - i,
    {
        if matches_at(hay, needle, i) {
            return true;
        }
        if i == last {
            return false;
        }
        i += 1;
    }
}

fn any_contains(needles: &Vec<String>, hay: &Vec<char>) -> (r: bool)
    ensures
        r == any_substring(needles@.map_values(|s: String| s@), hay@),
{
    let ghost views = needles@.map_values(|s: String| s@);
    let mut k: usize = 0;
    while k < needles.len()
        invariant
            k <= needles.len(),
            views == needles@.map_values(|s: String| s@),
            forall|j: int| 0 <= j < k ==> !is_substring(#[trigger] views[j], hay@),
        decreases needles.len() - k,
    {
        let needle = chars_of(needles[k].as_str());
        assert(views[k as int] == needles@[k as int]@);
        if contains(hay, &needle) {
            return true;
        }
        k += 1;
    }
    false
}

/// The activity monitor as a mathematical value.
pub struct MonitorView {
    pub current: Option<SegmentView>,
    pub log_file_path: Seq<char>,
    pub blocked_apps: Seq<Seq<char>>,
    pub blocked_titles: Seq<Seq<char>>,
}

impl MonitorView {
    /// The blocklist policy on names already in lower case: blocked where
    /// a listed application substring stands in the application name, or
    /// a listed title substring in the window title.
    pub open spec fn blocks(self, app_lower: Seq<char>, title_lower: Seq<char>) -> bool {
        any_substring(self.blocked_apps, app_lower) || any_substring(
            self.blocked_titles,
            title_lower,
        )
    }

    /// The blocklist policy on names as the window system gives them.
    pub open spec fn is_blocked(self, app_name: Seq<char>, title: Seq<char>) -> bool {
        self.blocks(lowercase(app_name), lowercase(title))
    }

    /// Whether a window with these attributes differs from the open
    /// segment; with no segment open it always does.
    pub open spec fn changed(self, app_name: Seq<char>, title: Seq<char>, captured: bool) -> bool {
        match self.current {
            Some(c) => c.app_name != app_name || c.window_title != title || c.is_captured
                != captured,
            None => true,
        }
    }

    /// A segment is in order for this monitor: it is well formed, and
    /// it is marked as captured exactly where its window is not blocked.
    pub open spec fn admits(self, segment: SegmentView) -> bool {
        segment.wf() && segment.is_captured == !self.is_blocked(
            segment.app_name,
            segment.window_title,
        )
    }

    /// The open segment is in order.
    pub open spec fn wf(self) -> bool {
        self.current matches Some(c) ==> self.admits(c)
    }

    /// The activity monitor after a look at `now`. A failed query changes
    /// nothing. A window that differs from the open segment opens a new
    /// segment at `now`; the same window extends the open segment to
    /// `now`.
    pub open spec fn after_check(self, now: Timestamp, window: Option<(Seq<char>, Seq<char>)>)
        -> MonitorView {
        match window {
            None => self,
            Some((app_name, title)) => {
                let captured = !self.is_blocked(app_name, title);
                if self.changed(app_name, title, captured) {
                    MonitorView {
                        current: Some(
                            SegmentView {
                                start_time: now,
                                end_time: now,
                                app_name: app_name,
                                window_title: title,
                                is_captured: captured,
                            },
                        ),
                        ..self
                    }
                } else {
                    MonitorView { current: Some(self.current->0.ended_at(now)), ..self }
                }
            },
        }
    }

    /// Whether a check permits capture: always after a failed query, else
    /// where the window is not blocked.
    pub open spec fn permits(self, window: Option<(Seq<char>, Seq<char>)>) -> bool {
        match window {
            None => true,
            Some((app_name, title)) => !self.is_blocked(app_name, title),
        }
    }

    /// The segment that a check at `now` closes: the open one, ended at
    /// `now`, where the window differs from it.
    pub open spec fn closed_by_check(
        self,
        now: Timestamp,
        window: Option<(Seq<char>, Seq<char>)>,
    ) -> Option<SegmentView> {
        match window {
            None => None,
            Some((app_name, title)) => {
                let captured = !self.is_blocked(app_name, title);
                match self.current {
                    Some(c) => if self.changed(app_name, title, captured) {
                        Some(c.ended_at(now))
                    } else {
                        None
                    },
                    None => None,
                }
            },
        }
    }
}

/// Where the clock has not run back behind the start of the open
/// segment, a look that closes it ends it exactly at `now`, where the
/// next segment starts: the segments of a session meet without gap or
/// overlap.
pub proof fn lemma_segments_meet(
    monitor: MonitorView,
    now: Timestamp,
    window: Option<(Seq<char>, Seq<char>)>,
)
    requires
        monitor.closed_by_check(now, window) is Some,
        now.not_before(monitor.current->0.start_time),
    ensures
        monitor.closed_by_check(now, window)->0.end_time == now,
        monitor.after_check(now, window).current is Some,
        monitor.after_check(now, window).current->0.start_time == now,
        monitor.after_check(now, window).current->0.end_time == now,
{
}

/// A look never changes what was recorded of the open segment but its
/// end: a closed segment has the start, the names and the capture flag
/// with which it was opened.
pub proof fn lemma_closed_segment_keeps_its_attributes(
    monitor: MonitorView,
    now: Timestamp,
    window: Option<(Seq<char>, Seq<char>)>,
)
    requires
        monitor.closed_by_check(now, window) is Some,
    ensures
        monitor.current is Some,
        monitor.closed_by_check(now, window)->0 == (SegmentView {
            end_time: monitor.closed_by_check(now, window)->0.end_time,
            ..monitor.current->0
        }),
{
}

/// The view of a window observation that may be absent.
pub open spec fn window_view(window: Option<WindowInfo>) -> Option<(Seq<char>, Seq<char>)> {
    match window {
        Some(w) => Some((w.app_name@, w.title@)),
        None => None,
    }
}

/// The activity monitor of one recording: its blocklists, and the
/// segment that is open, if any.
pub struct ActivityMonitor {
    current_log: Option<ActivityLog>,
    log_file_path: String,
    blocked_apps: Vec<String>,
    blocked_titles: Vec<String>,
}

impl View for ActivityMonitor {
    type V = MonitorView;

    closed spec fn view(&self) -> MonitorView {
        MonitorView {
            current: segment_view(self.current_log),
            log_file_path: self.log_file_path@,
            blocked_apps: self.blocked_apps@.map_values(|s: String| s@),
            blocked_titles: self.blocked_titles@.map_values(|s: String| s@),
        }
    }
}

/// The application substrings that are blocked unless others are given.
pub open spec fn default_blocked_apps() -> Seq<Seq<char>> {
    seq!["spotify"@, "slack"@, "line"@, "discord"@]
}

/// The title substrings that are blocked unless others are given.
pub open spec fn default_blocked_titles() -> Seq<Seq<char>> {
    seq!["private"@, "incognito"@, "secret"@]
}

impl ActivityMonitor {
    /// An activity monitor with the default blocklists and no open segment.
    pub fn new(log_file_path: String) -> (m: ActivityMonitor)
        ensures
            m@ == (MonitorView {
                current: None,
                log_file_path: log_file_path@,
                blocked_apps: default_blocked_apps(),
                blocked_titles: default_blocked_titles(),
            }),
            m@.wf(),
    {
        let mut apps: Vec<String> = Vec::new();
        apps.push(String::from_str("spotify"));
        apps.push(String::from_str("slack"));
        apps.push(String::from_str("line"));
        apps.push(String::from_str("discord"));
        let mut titles: Vec<String> = Vec::new();
        titles.push(String::from_str("private"));
        titles.push(String::from_str("incognito"));
        titles.push(String::from_str("secret"));
        assert(apps@.map_values(|s: String| s@) =~= default_blocked_apps());
        assert(titles@.map_values(|s: String| s@) =~= default_blocked_titles());
        ActivityMonitor {
            current_log: None,
            log_file_path,
            blocked_apps: apps,
            blocked_titles: titles,
        }
    }

    /// An activity monitor with the given blocklists and no open
    /// segment. The entries are matched as they stand against names in
    /// lower case.
    pub fn with_blocklist(
        log_file_path: String,
        blocked_apps: Vec<String>,
        blocked_titles: Vec<String>,
    ) -> (m: ActivityMonitor)
        ensures
            m@ == (MonitorView {
                current: None,
                log_file_path: log_file_path@,
                blocked_apps: blocked_apps@.map_values(|s: String| s@),
                blocked_titles: blocked_titles@.map_values(|s: String| s@),
            }),
            m@.wf(),
    {
        ActivityMonitor { current_log: None, log_file_path, blocked_apps, blocked_titles }
    }

    /// Where the session's log is kept.
    pub fn log_file_path(&self) -> (p: &String)
        ensures
            p@ == self@.log_file_path,
    {
        &self.log_file_path
    }

    /// The segment that is open, if any.
    pub fn current_log(&self) -> (c: &Option<ActivityLog>)
        ensures
            segment_view(*c) == self@.current,
    {
        &self.current_log
    }

    /// The blocklist policy on names already in lower case.
    pub fn matches_blocklist(&self, app_lower: &str, title_lower: &str) -> (blocked: bool)
        ensures
            blocked == self@.blocks(app_lower@, title_lower@),
    {
        let app = chars_of(app_lower);
        if any_contains(&self.blocked_apps, &app) {
            return true;
        }
        let title = chars_of(title_lower);
        any_contains(&self.blocked_titles, &title)
    }

    /// Whether the blocklist forbids capture while this window is in the
    /// foreground. Case is ignored: both names are matched in lower case.
    pub fn is_blocked(&self, app_name: &str, title: &str) -> (blocked: bool)
        ensures
            blocked == self@.is_blocked(app_name@, title@),
    {
        let app_lower = to_lowercase(app_name);
        let title_lower = to_lowercase(title);
        self.matches_blocklist(app_lower.as_str(), title_lower.as_str())
    }

    /// One look of the activity monitor at `now`, given what the query
    /// for the foreground window returned (`None` where it failed).
    ///
    /// A failed query permits capture and leaves the segments alone.
    /// Otherwise a window that differs from the open segment closes that
    /// segment at `now` and opens a new one; the same window extends the
    /// open segment to `now`. No segment ever ends before its start:
    /// where the clock has run back behind the start of a segment, the
    /// segment ends at its start.
    pub fn check_activity(&mut self, now: Timestamp, window: Option<WindowInfo>) -> (verdict:
        Verdict)
        requires
            old(self)@.wf(),
            now.valid(),
        ensures
            final(self)@ == old(self)@.after_check(now, window_view(window)),
            final(self)@.wf(),
            verdict.permitted == old(self)@.permits(window_view(window)),
            segment_view(verdict.closed) == old(self)@.closed_by_check(now, window_view(window)),
            verdict.closed matches Some(c) ==> old(self)@.admits(c@),
    {
        let window = match window {
            Some(w) => w,
            None => {
                return Verdict { permitted: true, closed: None };
            },
        };
        let blocked = self.is_blocked(window.app_name.as_str(), window.title.as_str());
        let captured = !blocked;
        let mut open: Option<ActivityLog> = None;
        std::mem::swap(&mut self.current_log, &mut open);
        let unchanged = match &open {
            Some(current) => current.app_name == window.app_name && current.window_title
                == window.title && current.is_captured == captured,
            None => false,
        };
        proof {
            crate::timestamp::lemma_order_total(now, now);
        }
        if unchanged {
            let mut current = open.unwrap();
            proof {
                crate::timestamp::lemma_order_total(now, current.start_time);
            }
            current.end_time = now.later(&current.start_time);
            self.current_log = Some(current);
            Verdict { permitted: captured, closed: None }
        } else {
            let closed = match open {
                Some(mut previous) => {
                    proof {
                        crate::timestamp::lemma_order_total(now, previous.start_time);
                    }
                    previous.end_time = now.later(&previous.start_time);
                    Some(previous)
                },
                None => None,
            };
            self.current_log = Some(
                ActivityLog {
                    start_time: now,
                    end_time: now,
                    app_name: window.app_name,
                    window_title: window.title,
                    is_captured: captured,
                },
            );
            Verdict { permitted: captured, closed }
        }
    }

    /// Closes the open segment, if there is one, and gives it for the
    /// log. A second call finds nothing to close.
    pub fn flush(&mut self) -> (closed: Option<ActivityLog>)
        requires
            old(self)@.wf(),
        ensures
            final(self)@ == (MonitorView { current: None, ..old(self)@ }),
            final(self)@.wf(),
            segment_view(closed) == old(self)@.current,
            closed matches Some(c) ==> old(self)@.admits(c@),
    {
        let mut open: Option<ActivityLog> = None;
        std::mem::swap(&mut self.current_log, &mut open);
        open
    }
}

} // verus!
