//! Buffer of log entries forwarded to the API, with its settings.

use vstd::prelude::*;
use crate::text::{contains_exec, contains_seq, chars_of, str_is, to_lowercase, unicode_lowercase};

verus! {

#[derive(Debug, Clone)]
pub struct LogEntry {
    pub message: String,
    pub level: String,
    pub timestamp: String,
    pub scope: String,
}

/// What the API asked for: whether to forward logs, how often, and how many
/// to keep between sends.
#[derive(Debug, Clone, Copy, PartialEq, Eq, Structural)]
pub struct LogSettings {
    pub is_active: bool,
    pub send_interval_ms: u64,
    pub max_buffer_size: usize,
}

/// Buffered entries (oldest first), how many were dropped since the last
/// send, and the settings.
pub struct ApiLogsBuffer {
    entries: Vec<LogEntry>,
    dropped: u64,
    settings: LogSettings,
}

pub struct LogsView {
    pub entries: Seq<LogEntry>,
    pub dropped: nat,
    pub settings: LogSettings,
}

impl View for ApiLogsBuffer {
    type V = LogsView;

    closed spec fn view(&self) -> LogsView {
        LogsView { entries: self.entries@, dropped: self.dropped as nat, settings: self.settings }
    }
}

/// The buffer after a push: the entry appended, the oldest dropped beyond
/// `max_buffer_size`, and the drop counter raised by as many.
pub open spec fn push_spec(v: LogsView, entry: LogEntry) -> LogsView {
    let all = v.entries.push(entry);
    let max = v.settings.max_buffer_size;
    if all.len() > max {
        let overflow = (all.len() - max) as nat;
        LogsView { entries: all.skip(overflow as int), dropped: v.dropped + overflow, ..v }
    } else {
        LogsView { entries: all, ..v }
    }
}

/// A push is defined while the drop counter cannot overflow.
pub open spec fn push_defined(v: LogsView) -> bool {
    v.dropped + v.entries.len() + 1 <= u64::MAX
}

impl ApiLogsBuffer {
    pub fn new() -> (r: Self)
        ensures
            r@.entries.len() == 0,
            r@.dropped == 0,
            r@.settings == (LogSettings { is_active: false, send_interval_ms: 10_000, max_buffer_size: 100 }),
    {
        ApiLogsBuffer {
            entries: Vec::new(),
            dropped: 0,
            settings: LogSettings { is_active: false, send_interval_ms: 10_000, max_buffer_size: 100 },
        }
    }

    pub fn can_push(&self) -> (b: bool)
        ensures
            b == push_defined(self@),
    {
        self.entries.len() as u64 <= u64::MAX - 1 && self.dropped <= u64::MAX - 1 - self.entries.len() as u64
    }

    pub fn push(&mut self, entry: LogEntry)
        requires
            push_defined(old(self)@),
        ensures
            final(self)@ == push_spec(old(self)@, entry),
    {
        let ghost all = self.entries@.push(entry);
        self.entries.push(entry);
        assert(self.entries@ == all);
        let max = self.settings.max_buffer_size;
        if self.entries.len() > max {
            let overflow = self.entries.len() - max;
            let mut k: usize = 0;
            assert(all.skip(0) =~= all);
            while k < overflow
                invariant
                    k <= overflow <= all.len(),
                    all.len() == old(self)@.entries.len() + 1,
                    self.entries@ == all.skip(k as int),
                    self.dropped == old(self).dropped,
                    self.settings == old(self).settings,
                    push_defined(old(self)@),
                decreases overflow - k,
            {
                self.entries.remove(0);
                assert(all.skip(k as int).remove(0) =~= all.skip(k + 1));
                k = k + 1;
            }
            self.dropped = self.dropped + overflow as u64;
        }
    }

    /// Applies the settings the API sent; absent ones are left as they are.
    pub fn update(&mut self, is_active: Option<bool>, send_interval_ms: Option<u64>, max_buffer_size: Option<usize>)
        ensures
            final(self)@.entries == old(self)@.entries,
            final(self)@.dropped == old(self)@.dropped,
            final(self)@.settings == (LogSettings {
                is_active: match is_active {
                    Some(v) => v,
                    None => old(self)@.settings.is_active,
                },
                send_interval_ms: match send_interval_ms {
                    Some(v) => v,
                    None => old(self)@.settings.send_interval_ms,
                },
                max_buffer_size: match max_buffer_size {
                    Some(v) => v,
                    None => old(self)@.settings.max_buffer_size,
                },
            }),
    {
        if let Some(v) = is_active {
            self.settings.is_active = v;
        }
        if let Some(v) = send_interval_ms {
            self.settings.send_interval_ms = v;
        }
        if let Some(v) = max_buffer_size {
            self.settings.max_buffer_size = v;
        }
    }

    pub fn is_active(&self) -> (r: bool)
        ensures
            r == self@.settings.is_active,
    {
        self.settings.is_active
    }

    pub fn send_interval_ms(&self) -> (r: u64)
        ensures
            r == self@.settings.send_interval_ms,
    {
        self.settings.send_interval_ms
    }

    /// Takes the buffered entries and the drop count for sending; `None`
    /// (nothing taken) when forwarding is off or nothing is buffered.
    pub fn take(&mut self) -> (r: Option<(Vec<LogEntry>, u64)>)
        ensures
            (!old(self)@.settings.is_active || old(self)@.entries.len() == 0) ==> (r is None
                && final(self)@ == old(self)@),
            (old(self)@.settings.is_active && old(self)@.entries.len() > 0) ==> (r matches Some(
                p,
            ) && p.0@ == old(self)@.entries && p.1 == old(self)@.dropped && final(self)@.entries.len()
                == 0 && final(self)@.dropped == 0 && final(self)@.settings == old(self)@.settings),
    {
        if !self.settings.is_active || self.entries.len() == 0 {
            return None;
        }
        let mut logs: Vec<LogEntry> = Vec::new();
        std::mem::swap(&mut logs, &mut self.entries);
        let skipped = self.dropped;
        self.dropped = 0;
        Some((logs, skipped))
    }
}


/// The scope a log line is filed under: `None` for lines bridged from the
/// `log` crate (library internals), `general` for module paths, else the
/// target itself.
pub open spec fn log_scope_spec(target: Seq<char>) -> Option<Seq<char>> {
    if target == "log"@ {
        None
    } else if contains_seq(target, "::"@) {
        Some("general"@)
    } else {
        Some(target)
    }
}

pub fn log_scope(target: &str) -> (r: Option<String>)
    ensures
        crate::text::opt_view(r) == log_scope_spec(target@),
{
    if str_is(target, "log") {
        None
    } else if contains_exec(chars_of(target).as_slice(), chars_of("::").as_slice()) {
        Some("general".to_string())
    } else {
        Some(target.to_string())
    }
}

/// The entry a log event becomes: `None` for events from the `log` bridge;
/// otherwise the message, the level lowercased, the given timestamp and the
/// scope of `log_scope_spec`.
pub open spec fn entry_spec(level: Seq<char>, target: Seq<char>, message: Seq<char>, timestamp: Seq<char>) -> Option<(Seq<char>, Seq<char>, Seq<char>, Seq<char>)> {
    match log_scope_spec(target) {
        Some(scope) => Some((message, unicode_lowercase(level), timestamp, scope)),
        None => None,
    }
}

pub open spec fn entry_view(e: LogEntry) -> (Seq<char>, Seq<char>, Seq<char>, Seq<char>) {
    (e.message@, e.level@, e.timestamp@, e.scope@)
}

pub fn make_entry(level: &str, target: &str, message: String, timestamp: String) -> (r: Option<LogEntry>)
    ensures
        match entry_spec(level@, target@, message@, timestamp@) {
            Some(v) => r matches Some(e) && entry_view(e) == v,
            None => r is None,
        },
{
    match log_scope(target) {
        Some(scope) => Some(LogEntry { message, level: to_lowercase(level), timestamp, scope }),
        None => None,
    }
}

/// Calls `chrono::Utc::now()` and writes it with
/// `to_rfc3339_opts(SecondsFormat::Millis, true)`. The clock's reading is
/// not stated.
#[verifier::external_body]
fn utc_now_rfc3339() -> (r: String) {
    chrono::Utc::now().to_rfc3339_opts(chrono::SecondsFormat::Millis, true)
}

/// Turns tracing events into API log entries.
pub struct ApiLogsLayer;

impl ApiLogsLayer {
    /// The entry for an event, stamped with the current time; whatever the
    /// clock reads, every other field is that of `entry_spec`.
    pub fn entry(&self, level: &str, target: &str, message: String) -> (r: Option<LogEntry>)
        ensures
            match log_scope_spec(target@) {
                Some(scope) => r matches Some(e) && e.message@ == message@ && e.level@
                    == unicode_lowercase(level@) && e.scope@ == scope,
                None => r is None,
            },
    {
        let timestamp = utc_now_rfc3339();
        make_entry(level, target, message, timestamp)
    }
}

/// A buffer within `max_buffer_size` stays within it after a push: it grows
/// by one while there is room, and stays at the limit once full.
pub proof fn law_push_keeps_bound(v: LogsView, e: LogEntry)
    ensures
        v.entries.len() <= v.settings.max_buffer_size ==> push_spec(v, e).entries.len()
            <= v.settings.max_buffer_size,
        v.entries.len() < v.settings.max_buffer_size ==> push_spec(v, e).entries.len()
            == v.entries.len() + 1,
        v.entries.len() >= v.settings.max_buffer_size ==> push_spec(v, e).entries.len()
            == v.settings.max_buffer_size,
{
}

/// The buffer after pushing `es` in order.
pub open spec fn push_all(v: LogsView, es: Seq<LogEntry>) -> LogsView
    decreases es.len(),
{
    if es.len() == 0 {
        v
    } else {
        push_spec(push_all(v, es.drop_last()), es.last())
    }
}

/// How many of `n` entries overflow a buffer of `m`.
pub open spec fn overflow_count(n: nat, m: nat) -> nat {
    if n > m {
        (n - m) as nat
    } else {
        0
    }
}

/// Pushing many entries into a buffer within its limit `m` keeps the last
/// `m` of everything buffered and pushed, in push order, and counts the
/// older ones as skipped; with room for one entry or more, the buffer is not
/// empty afterwards, so a `take` returns them.
pub proof fn law_pushes_keep_newest_in_order(v: LogsView, es: Seq<LogEntry>)
    requires
        v.entries.len() <= v.settings.max_buffer_size,
    ensures
        push_all(v, es).entries == (v.entries + es).skip(
            overflow_count((v.entries.len() + es.len()) as nat, v.settings.max_buffer_size as nat) as int,
        ),
        push_all(v, es).dropped == v.dropped + overflow_count(
            (v.entries.len() + es.len()) as nat,
            v.settings.max_buffer_size as nat,
        ),
        push_all(v, es).settings == v.settings,
        push_all(v, es).entries.len() <= v.settings.max_buffer_size,
        v.settings.max_buffer_size >= 1 && v.entries.len() + es.len() >= 1 ==> push_all(
            v,
            es,
        ).entries.len() >= 1,
    decreases es.len(),
{
    let m = v.settings.max_buffer_size as nat;
    if es.len() == 0 {
        assert((v.entries + es) =~= v.entries);
        assert(v.entries.skip(0) =~= v.entries);
    } else {
        let es0 = es.drop_last();
        let e = es.last();
        law_pushes_keep_newest_in_order(v, es0);
        let p = push_all(v, es0);
        let all0 = v.entries + es0;
        let all = v.entries + es;
        let k0 = overflow_count(all0.len(), m);
        let k = overflow_count(all.len(), m);
        assert(all =~= all0.push(e));
        assert(p.entries.push(e) =~= all.skip(k0 as int));
        if p.entries.len() + 1 > m {
            assert(k == k0 + 1);
            assert(all.skip(k0 as int).skip(1) =~= all.skip(k as int));
        } else {
            assert(k == k0);
        }
    }
}

/// Every pushed entry is either still buffered or counted as dropped.
pub proof fn law_push_accounts_every_entry(v: LogsView, e: LogEntry)
    ensures
        push_spec(v, e).entries.len() + push_spec(v, e).dropped == v.entries.len() + v.dropped + 1,
{
}

/// With room for at least one entry, the newest entry is always kept, last.
pub proof fn law_push_keeps_newest(v: LogsView, e: LogEntry)
    requires
        v.settings.max_buffer_size >= 1,
    ensures
        push_spec(v, e).entries.last() == e,
{
}

} // verus!
