//! How a runtime that was just started is watched until it is ready.
//!
//! The watch is a machine: it says what to look at next, and is told what was seen.
use vstd::prelude::*;

use crate::runtime::plan::RuntimeReadinessProbe;
use crate::text::bytes::bytes_of;
use crate::text::compose::texts;
use crate::text::number::{decimal, parse_u16, parsed, show};
use crate::text::pieces::{words, words_of};

verus! {

/// How many bytes of a log are read in one go.
pub const LOG_READ_LIMIT: usize = 1048576;

/// How long a probe of the health endpoint or of the port may take.
pub const PROBE_TIMEOUT_MILLIS: u64 = 500;

/// How long to pause between two looks.
pub const READY_PAUSE_MILLIS: u64 = 100;

pub open spec fn bytes_occur_at(s: Seq<u8>, part: Seq<u8>, at: int) -> bool {
    0 <= at && at + part.len() <= s.len() && s.subrange(at, at + part.len()) == part
}

pub open spec fn bytes_occur(s: Seq<u8>, part: Seq<u8>) -> bool {
    exists|at: int| #[trigger] bytes_occur_at(s, part, at)
}

/// The end of a byte string, at most `n` bytes of it.
pub open spec fn last_bytes(s: Seq<u8>, n: int) -> Seq<u8> {
    if n <= 0 {
        seq![]
    } else if s.len() <= n {
        s
    } else {
        s.skip(s.len() - n)
    }
}

/// Where the reading of a log stands: how far it was read, and the bytes at the end of
/// what was read that may be the beginning of the marker.
pub struct LogScan {
    pub cursor: u64,
    pub tail: Vec<u8>,
}

pub struct ScanView {
    pub cursor: u64,
    pub tail: Seq<u8>,
}

impl View for LogScan {
    type V = ScanView;

    open spec fn view(&self) -> ScanView {
        ScanView { cursor: self.cursor, tail: self.tail@ }
    }
}

pub open spec fn saturated(n: int) -> u64 {
    if n > u64::MAX {
        u64::MAX
    } else {
        n as u64
    }
}

/// The reading after more bytes came in.
pub open spec fn scanned(s: ScanView, appended: Seq<u8>, marker: Seq<u8>) -> ScanView {
    let all = s.tail + appended;
    ScanView {
        cursor: saturated(s.cursor + appended.len()),
        tail: if bytes_occur(all, marker) {
            all
        } else {
            last_bytes(all, marker.len() - 1)
        },
    }
}

fn same_bytes_at(s: &Vec<u8>, part: &Vec<u8>, at: usize) -> (r: bool)
    requires
        at + part@.len() <= s@.len(),
    ensures
        r == bytes_occur_at(s@, part@, at as int),
{
    let mut i: usize = 0;
    while i < part.len()
        invariant
            i <= part@.len(),
            at + part@.len() <= s.len(),
            forall|j: int| 0 <= j < i ==> s@[at + j] == #[trigger] part@[j],
        decreases part@.len() - i,
    {
        if s[at + i] != part[i] {
            assert(s@.subrange(at as int, at + part@.len())[i as int] != part@[i as int]);
            return false;
        }
        i += 1;
    }
    assert(s@.subrange(at as int, at + part@.len()) =~= part@);
    true
}

/// Whether a byte string holds another.
pub fn has_bytes(s: &Vec<u8>, part: &Vec<u8>) -> (r: bool)
    ensures
        r == bytes_occur(s@, part@),
{
    if part.len() > s.len() {
        return false;
    }
    let last: usize = s.len() - part.len();
    let mut at: usize = 0;
    while at < last
        invariant
            at <= last,
            last + part@.len() == s@.len(),
            forall|j: int| 0 <= j < at ==> !#[trigger] bytes_occur_at(s@, part@, j),
        decreases last - at,
    {
        if same_bytes_at(s, part, at) {
            return true;
        }
        at += 1;
    }
    same_bytes_at(s, part, last)
}

impl LogScan {
    /// Takes in what was appended to the log, and says whether the marker has come.
    /// An empty marker is there in any case, and nothing is read for it.
    pub fn appended_log_contains(&mut self, appended: &Vec<u8>, marker: &Vec<u8>) -> (r: bool)
        ensures
            marker@.len() == 0 ==> r && final(self)@ == old(self)@,
            marker@.len() > 0 ==> r == bytes_occur(old(self).tail@ + appended@, marker@)
                && final(self)@ == scanned(old(self)@, appended@, marker@),
    {
        if marker.len() == 0 {
            return true;
        }
        let ghost all = self.tail@ + appended@;
        let read: u64 = appended.len() as u64;
        self.cursor = if self.cursor > u64::MAX - read {
            u64::MAX
        } else {
            self.cursor + read
        };
        let mut joined: Vec<u8> = Vec::new();
        let mut i: usize = 0;
        while i < self.tail.len()
            invariant
                i <= self.tail@.len(),
                joined@ == self.tail@.take(i as int),
            decreases self.tail@.len() - i,
        {
            joined.push(self.tail[i]);
            i += 1;
        }
        let mut k: usize = 0;
        while k < appended.len()
            invariant
                k <= appended@.len(),
                joined@ == self.tail@ + appended@.take(k as int),
            decreases appended@.len() - k,
        {
            joined.push(appended[k]);
            k += 1;
        }
        assert(joined@ =~= all);
        if has_bytes(&joined, marker) {
            self.tail = joined;
            return true;
        }
        let keep: usize = marker.len() - 1;
        if keep == 0 {
            self.tail = Vec::new();
            assert(self.tail@ =~= last_bytes(all, marker@.len() - 1));
        } else if joined.len() <= keep {
            self.tail = joined;
        } else {
            let mut kept: Vec<u8> = Vec::new();
            let from: usize = joined.len() - keep;
            let mut j: usize = from;
            while j < joined.len()
                invariant
                    from <= j <= joined@.len(),
                    kept@ == joined@.subrange(from as int, j as int),
                decreases joined@.len() - j,
            {
                kept.push(joined[j]);
                j += 1;
            }
            assert(kept@ =~= last_bytes(all, marker@.len() - 1));
            self.tail = kept;
        }
        false
    }
}

/// What the reading of a log keeps: the marker has not come in all that was read, and
/// the bytes held back are the end of it.
pub open spec fn scan_is_current(s: ScanView, stream: Seq<u8>, marker: Seq<u8>) -> bool {
    !bytes_occur(stream, marker) && s.tail == last_bytes(stream, marker.len() - 1)
}

/// However a log comes in pieces, the marker is seen with the piece that completes it and
/// not before: among all that was read up to then it occurs exactly when it is seen.
pub proof fn markers_are_seen_across_pieces(
    s: ScanView,
    stream: Seq<u8>,
    appended: Seq<u8>,
    marker: Seq<u8>,
)
    requires
        marker.len() > 0,
        scan_is_current(s, stream, marker),
    ensures
        bytes_occur(s.tail + appended, marker) == bytes_occur(stream + appended, marker),
        !bytes_occur(stream + appended, marker) ==> scan_is_current(
            scanned(s, appended, marker),
            stream + appended,
            marker,
        ),
{
    let whole = stream + appended;
    let part = s.tail + appended;
    let cut = stream.len() - s.tail.len();
    assert(s.tail =~= stream.skip(cut));
    assert(part =~= whole.skip(cut));
    if bytes_occur(part, marker) {
        let at = choose|at: int| #[trigger] bytes_occur_at(part, marker, at);
        assert(whole.subrange(cut + at, cut + at + marker.len()) =~= part.subrange(
            at,
            at + marker.len(),
        ));
        assert(bytes_occur_at(whole, marker, cut + at));
    }
    if bytes_occur(whole, marker) {
        let at = choose|at: int| #[trigger] bytes_occur_at(whole, marker, at);
        if at + marker.len() <= stream.len() {
            assert(stream.subrange(at, at + marker.len()) =~= whole.subrange(
                at,
                at + marker.len(),
            ));
            assert(bytes_occur_at(stream, marker, at));
            assert(false);
        }
        assert(at >= cut);
        assert(part.subrange(at - cut, at - cut + marker.len()) =~= whole.subrange(
            at,
            at + marker.len(),
        ));
        assert(bytes_occur_at(part, marker, at - cut));
    } else {
        assert(last_bytes(part, marker.len() - 1) =~= last_bytes(whole, marker.len() - 1));
    }
}

/// Before anything was read, the reading is current.
pub proof fn a_fresh_scan_is_current(cursor: u64, marker: Seq<u8>)
    requires
        marker.len() > 0,
    ensures
        scan_is_current(ScanView { cursor, tail: seq![] }, seq![], marker),
{
    assert(last_bytes(Seq::<u8>::empty(), marker.len() - 1) =~= Seq::<u8>::empty());
}

/// What the watch does next, or how it ended.
#[derive(Clone, Copy, Debug, PartialEq, Eq, Structural)]
pub enum ReadyPhase {
    /// Look at the clock.
    CheckTime,
    /// Look whether the process has exited.
    CheckChild,
    /// Ask the health endpoint.
    AskHealth,
    /// Read on in the log.
    ReadLog,
    /// Try to connect.
    Connect,
    /// Pause, then look at the clock again.
    Pause,
    /// Time is up: look once more whether the process has exited.
    LastCheck,
    Ready,
    TimedOut,
    EarlyExit,
    PollFailed,
}

/// The watch over a runtime that was just started.
pub struct ReadyWatch {
    pub phase: ReadyPhase,
    pub deadline: u128,
    pub marker: Option<Vec<u8>>,
    pub scan: LogScan,
    pub seen: bool,
    pub failure: Option<String>,
}

pub struct WatchView {
    pub phase: ReadyPhase,
    pub deadline: u128,
    pub marker: Option<Seq<u8>>,
    pub scan: ScanView,
    pub seen: bool,
    pub failure: Option<Seq<char>>,
}

impl View for ReadyWatch {
    type V = WatchView;

    open spec fn view(&self) -> WatchView {
        WatchView {
            phase: self.phase,
            deadline: self.deadline,
            marker: match self.marker {
                Some(m) => Some(m@),
                None => None,
            },
            scan: self.scan@,
            seen: self.seen,
            failure: crate::text::compose::opt_text(self.failure),
        }
    }
}

/// What was seen.
pub enum ReadyEvent {
    /// The time, in the unit of the deadline.
    Clock(u128),
    /// Whether the process has exited.
    Child(bool),
    /// The process could not be looked at.
    ChildFailed(String),
    /// Whether the health endpoint answered with success.
    Health(bool),
    /// What was read from the log, unless reading failed.
    Log(Option<Vec<u8>>),
    /// Whether a connection was made.
    Connected(bool),
    /// The pause is over.
    Paused,
}

pub enum ReadyEventView {
    Clock(u128),
    Child(bool),
    ChildFailed(Seq<char>),
    Health(bool),
    Log(Option<Seq<u8>>),
    Connected(bool),
    Paused,
}

impl View for ReadyEvent {
    type V = ReadyEventView;

    open spec fn view(&self) -> ReadyEventView {
        match self {
            ReadyEvent::Clock(t) => ReadyEventView::Clock(*t),
            ReadyEvent::Child(b) => ReadyEventView::Child(*b),
            ReadyEvent::ChildFailed(s) => ReadyEventView::ChildFailed(s@),
            ReadyEvent::Health(b) => ReadyEventView::Health(*b),
            ReadyEvent::Log(r) => ReadyEventView::Log(
                match r {
                    Some(bytes) => Some(bytes@),
                    None => None,
                },
            ),
            ReadyEvent::Connected(b) => ReadyEventView::Connected(*b),
            ReadyEvent::Paused => ReadyEventView::Paused,
        }
    }
}

pub open spec fn in_phase(w: WatchView, phase: ReadyPhase) -> WatchView {
    WatchView { phase, ..w }
}

/// The watch after the log was looked at: the marker counts once it has been seen.
pub open spec fn after_log(w: WatchView, read: Option<Seq<u8>>) -> WatchView {
    let marker = w.marker->0;
    let found = match read {
        None => marker.len() == 0,
        Some(bytes) => marker.len() == 0 || bytes_occur(w.scan.tail + bytes, marker),
    };
    let scan = match read {
        Some(bytes) => if marker.len() == 0 {
            w.scan
        } else {
            scanned(w.scan, bytes, marker)
        },
        None => w.scan,
    };
    let seen = w.seen || found;
    WatchView {
        phase: if seen {
            ReadyPhase::Connect
        } else {
            ReadyPhase::Pause
        },
        scan,
        seen,
        ..w
    }
}

/// One step of the watch. An event that does not answer what was asked changes nothing.
pub open spec fn watched(w: WatchView, e: ReadyEventView) -> WatchView {
    match (w.phase, e) {
        (ReadyPhase::CheckTime, ReadyEventView::Clock(now)) => in_phase(
            w,
            if now < w.deadline {
                ReadyPhase::CheckChild
            } else {
                ReadyPhase::LastCheck
            },
        ),
        (ReadyPhase::CheckChild, ReadyEventView::Child(exited)) => in_phase(
            w,
            if exited {
                ReadyPhase::EarlyExit
            } else if w.marker is Some {
                ReadyPhase::ReadLog
            } else {
                ReadyPhase::AskHealth
            },
        ),
        (ReadyPhase::CheckChild, ReadyEventView::ChildFailed(message)) => WatchView {
            phase: ReadyPhase::PollFailed,
            failure: Some(message),
            ..w
        },
        (ReadyPhase::AskHealth, ReadyEventView::Health(ok)) => in_phase(
            w,
            if ok {
                ReadyPhase::Ready
            } else {
                ReadyPhase::Pause
            },
        ),
        (ReadyPhase::ReadLog, ReadyEventView::Log(read)) => if w.marker is Some {
            after_log(w, read)
        } else {
            w
        },
        (ReadyPhase::Connect, ReadyEventView::Connected(ok)) => in_phase(
            w,
            if ok {
                ReadyPhase::Ready
            } else {
                ReadyPhase::Pause
            },
        ),
        (ReadyPhase::Pause, ReadyEventView::Paused) => in_phase(w, ReadyPhase::CheckTime),
        (ReadyPhase::LastCheck, ReadyEventView::Child(exited)) => in_phase(
            w,
            if exited {
                ReadyPhase::EarlyExit
            } else {
                ReadyPhase::TimedOut
            },
        ),
        (ReadyPhase::LastCheck, ReadyEventView::ChildFailed(message)) => WatchView {
            phase: ReadyPhase::PollFailed,
            failure: Some(message),
            ..w
        },
        _ => w,
    }
}

/// The watch as it begins: the log counts from the given place on.
pub open spec fn fresh_watch(
    marker: Option<Seq<u8>>,
    deadline: u128,
    log_start: u64,
) -> WatchView {
    WatchView {
        phase: ReadyPhase::CheckTime,
        deadline,
        marker,
        scan: ScanView { cursor: log_start, tail: seq![] },
        seen: false,
        failure: None,
    }
}

/// The marker that a probe waits for in the log.
pub open spec fn probe_marker(probe: RuntimeReadinessProbe) -> Option<Seq<u8>> {
    match probe {
        RuntimeReadinessProbe::HttpHealth => None,
        RuntimeReadinessProbe::TcpConnectAndLog { marker } => Some(
            vstd::utf8::encode_utf8(marker@),
        ),
    }
}

impl ReadyWatch {
    /// The watch over a runtime whose log counts from the given place on.
    pub fn new(probe: &RuntimeReadinessProbe, deadline: u128, log_start: u64) -> (r: ReadyWatch)
        ensures
            r@ == fresh_watch(probe_marker(*probe), deadline, log_start),
    {
        let marker = match probe {
            RuntimeReadinessProbe::HttpHealth => None,
            RuntimeReadinessProbe::TcpConnectAndLog { marker } => Some(bytes_of(marker.as_str())),
        };
        ReadyWatch {
            phase: ReadyPhase::CheckTime,
            deadline,
            marker,
            scan: LogScan { cursor: log_start, tail: Vec::new() },
            seen: false,
            failure: None,
        }
    }

    /// Tells the watch what was seen.
    pub fn step(&mut self, event: ReadyEvent)
        ensures
            final(self)@ == watched(old(self)@, event@),
    {
        match (self.phase, event) {
            (ReadyPhase::CheckTime, ReadyEvent::Clock(now)) => {
                self.phase = if now < self.deadline {
                    ReadyPhase::CheckChild
                } else {
                    ReadyPhase::LastCheck
                };
            },
            (ReadyPhase::CheckChild, ReadyEvent::Child(exited)) => {
                self.phase = if exited {
                    ReadyPhase::EarlyExit
                } else if self.marker.is_some() {
                    ReadyPhase::ReadLog
                } else {
                    ReadyPhase::AskHealth
                };
            },
            (ReadyPhase::CheckChild, ReadyEvent::ChildFailed(message)) => {
                self.phase = ReadyPhase::PollFailed;
                self.failure = Some(message);
            },
            (ReadyPhase::AskHealth, ReadyEvent::Health(ok)) => {
                self.phase = if ok {
                    ReadyPhase::Ready
                } else {
                    ReadyPhase::Pause
                };
            },
            (ReadyPhase::ReadLog, ReadyEvent::Log(read)) => {
                if let Some(marker) = &self.marker {
                    let found = match read {
                        Some(bytes) => self.scan.appended_log_contains(&bytes, marker),
                        None => marker.len() == 0,
                    };
                    if found {
                        self.seen = true;
                    }
                    self.phase = if self.seen {
                        ReadyPhase::Connect
                    } else {
                        ReadyPhase::Pause
                    };
                }
            },
            (ReadyPhase::Connect, ReadyEvent::Connected(ok)) => {
                self.phase = if ok {
                    ReadyPhase::Ready
                } else {
                    ReadyPhase::Pause
                };
            },
            (ReadyPhase::Pause, ReadyEvent::Paused) => {
                self.phase = ReadyPhase::CheckTime;
            },
            (ReadyPhase::LastCheck, ReadyEvent::Child(exited)) => {
                self.phase = if exited {
                    ReadyPhase::EarlyExit
                } else {
                    ReadyPhase::TimedOut
                };
            },
            (ReadyPhase::LastCheck, ReadyEvent::ChildFailed(message)) => {
                self.phase = ReadyPhase::PollFailed;
                self.failure = Some(message);
            },
            _ => {},
        }
    }
}

/// What holds of a watch in every state: one that waits for a marker connects, and is
/// ready, only after the marker was seen.
pub open spec fn watch_is_sound(w: WatchView) -> bool {
    &&& w.phase == ReadyPhase::Connect ==> w.marker is Some && w.seen
    &&& w.phase == ReadyPhase::Ready && w.marker is Some ==> w.seen
    &&& w.phase == ReadyPhase::AskHealth ==> w.marker is None
    &&& w.phase == ReadyPhase::PollFailed ==> w.failure is Some
}

/// Soundness holds at the beginning and is kept by every step, and what a watch waits
/// for never changes.
pub proof fn watches_stay_sound(w: WatchView, e: ReadyEventView, log_start: u64)
    requires
        watch_is_sound(w),
    ensures
        watch_is_sound(fresh_watch(w.marker, w.deadline, log_start)),
        watch_is_sound(watched(w, e)),
        watched(w, e).marker == w.marker,
        watched(w, e).deadline == w.deadline,
{
}

/// A watch that has ended stays as it is.
pub proof fn an_ended_watch_stays(w: WatchView, e: ReadyEventView)
    requires
        w.phase == ReadyPhase::Ready || w.phase == ReadyPhase::TimedOut || w.phase
            == ReadyPhase::EarlyExit || w.phase == ReadyPhase::PollFailed,
    ensures
        watched(w, e) == w,
{
}

/// A process that is seen to have exited is never called ready: the watch ends.
pub proof fn an_exited_process_is_not_ready(w: WatchView)
    requires
        w.phase == ReadyPhase::CheckChild || w.phase == ReadyPhase::LastCheck,
    ensures
        watched(w, ReadyEventView::Child(true)).phase == ReadyPhase::EarlyExit,
{
}

/// What the log held before the runtime was started does not count: the marker is seen
/// only where it occurs in what was read from the start of the watch on.
pub open spec fn seen_in_stream(w: WatchView, stream: Seq<u8>) -> bool {
    w.marker is Some && w.marker->0.len() > 0 ==> if w.seen {
        bytes_occur(stream, w.marker->0)
    } else {
        scan_is_current(w.scan, stream, w.marker->0)
    }
}

/// The bytes that an event adds to what was read.
pub open spec fn read_by(w: WatchView, e: ReadyEventView) -> Seq<u8> {
    match (w.phase, e) {
        (ReadyPhase::ReadLog, ReadyEventView::Log(Some(bytes))) => bytes,
        _ => seq![],
    }
}

/// Every step keeps that link between what was read and whether the marker was seen.
pub proof fn a_stale_marker_is_not_seen(w: WatchView, stream: Seq<u8>, e: ReadyEventView)
    requires
        seen_in_stream(w, stream),
    ensures
        seen_in_stream(watched(w, e), stream + read_by(w, e)),
{
    let next = watched(w, e);
    let grown = stream + read_by(w, e);
    if w.marker is Some && w.marker->0.len() > 0 {
        let marker = w.marker->0;
        match (w.phase, e) {
            (ReadyPhase::ReadLog, ReadyEventView::Log(Some(bytes))) => {
                if w.seen {
                    let at = choose|at: int| #[trigger] bytes_occur_at(stream, marker, at);
                    assert(grown.subrange(at, at + marker.len()) =~= stream.subrange(
                        at,
                        at + marker.len(),
                    ));
                    assert(bytes_occur_at(grown, marker, at));
                } else {
                    markers_are_seen_across_pieces(w.scan, stream, bytes, marker);
                }
            },
            _ => {
                assert(grown =~= stream);
            },
        }
    }
}

/// The request that asks a runtime for its health.
pub open spec fn health_request_text(host: Seq<char>, port: u16) -> Seq<char> {
    "GET /health HTTP/1.1\r\nHost: "@ + host + ":"@ + decimal(port as nat)
        + "\r\nConnection: close\r\n\r\n"@
}

/// The request that asks a runtime for its health.
pub fn health_request(host: &str, port: u16) -> (r: String)
    ensures
        r@ == health_request_text(host@, port),
{
    "GET /health HTTP/1.1\r\nHost: ".to_owned().concat(host).concat(":").concat(
        show(port as u64).as_str(),
    ).concat("\r\nConnection: close\r\n\r\n")
}

/// The status that a status line reports: its second word, as a number.
pub open spec fn reported_status(line: Seq<char>) -> Option<nat> {
    if words_of(line).len() < 2 {
        None
    } else {
        parsed(words_of(line)[1], u16::MAX as nat)
    }
}

/// Whether a status line reports success.
pub fn health_status_ok(line: &str) -> (r: bool)
    ensures
        r == (reported_status(line@) is Some && 200 <= reported_status(line@)->0 < 300),
{
    let parts = words(line);
    assert(texts(parts@).len() == parts@.len());
    if parts.len() < 2 {
        return false;
    }
    assert(texts(parts@)[1] == parts@[1]@);
    match parse_u16(parts[1].as_str()) {
        Some(status) => 200 <= status && status < 300,
        None => false,
    }
}

} // verus!
