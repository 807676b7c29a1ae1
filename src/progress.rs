//! Progress snapshots, the errors of a session, and the accumulator that folds
//! key/value pairs into snapshots.
use vstd::prelude::*;
use crate::numbers::{float_text, is_float_text, parse_u64, u64_value};
use crate::text::same_text;

verus! {

/// Whether the transcoder goes on or has finished.
#[derive(Debug, Clone, Copy, PartialEq, Eq, Structural)]
pub enum Status {
    Continue,
    End,
}

impl Default for Status {
    fn default() -> (r: Self)
        ensures
            r == Status::Continue,
    {
        Status::Continue
    }
}

/// One report of the transcoder. Every field is optional; the status is set
/// by the line that completes the report.
#[derive(Debug, PartialEq)]
pub struct Progress {
    pub frame: Option<u64>,
    /// Frames per second, as the decimal text the transcoder sent.
    pub fps: Option<String>,
    pub total_size: Option<u64>,
    /// Output timestamp in microseconds.
    pub out_time: Option<u64>,
    pub dup_frames: Option<u64>,
    pub drop_frames: Option<u64>,
    /// Speed multiplier, as decimal text without its unit suffix.
    pub speed: Option<String>,
    pub status: Status,
}

/// The contents of a [`Progress`].
pub struct ProgressView {
    pub frame: Option<u64>,
    pub fps: Option<Seq<char>>,
    pub total_size: Option<u64>,
    pub out_time: Option<u64>,
    pub dup_frames: Option<u64>,
    pub drop_frames: Option<u64>,
    pub speed: Option<Seq<char>>,
    pub status: Status,
}

pub open spec fn text_opt(o: Option<String>) -> Option<Seq<char>> {
    match o {
        Some(s) => Some(s@),
        None => None,
    }
}

impl View for Progress {
    type V = ProgressView;

    open spec fn view(&self) -> ProgressView {
        ProgressView {
            frame: self.frame,
            fps: text_opt(self.fps),
            total_size: self.total_size,
            out_time: self.out_time,
            dup_frames: self.dup_frames,
            drop_frames: self.drop_frames,
            speed: text_opt(self.speed),
            status: self.status,
        }
    }
}

/// A record with no field set.
pub open spec fn empty_progress() -> ProgressView {
    ProgressView {
        frame: None,
        fps: None,
        total_size: None,
        out_time: None,
        dup_frames: None,
        drop_frames: None,
        speed: None,
        status: Status::Continue,
    }
}

impl Progress {
    pub fn new() -> (r: Self)
        ensures
            r@ == empty_progress(),
    {
        Progress {
            frame: None,
            fps: None,
            total_size: None,
            out_time: None,
            dup_frames: None,
            drop_frames: None,
            speed: None,
            status: Status::Continue,
        }
    }
}

/// The type that a value failed to convert to.
#[derive(Debug, Clone, Copy, PartialEq, Eq, Structural)]
pub enum ConversionError {
    InvalidInteger,
    InvalidFloat,
}

/// std's `io::Error`, carried through as the cause of a failed read; nothing
/// inside it is read here.
#[verifier::external_type_specification]
#[verifier::external_body]
pub struct ExIoError(std::io::Error);

/// What ends a session early.
#[derive(Debug)]
pub enum Error {
    /// Reading the connection failed.
    IoError(std::io::Error),
    /// A line without `=`; holds the line.
    KeyValueParseError(String),
    /// A `progress` value other than `continue` or `end`; holds the value.
    UnknownStatusError(String),
    /// A value of a known key that does not convert; holds the text that failed.
    OtherParseError(ConversionError, String),
}

/// The contents of an [`Error`].
pub enum ErrorView {
    Io,
    KeyValue(Seq<char>),
    UnknownStatus(Seq<char>),
    Conversion(ConversionError, Seq<char>),
}

impl View for Error {
    type V = ErrorView;

    open spec fn view(&self) -> ErrorView {
        match self {
            Error::IoError(_) => ErrorView::Io,
            Error::KeyValueParseError(l) => ErrorView::KeyValue(l@),
            Error::UnknownStatusError(v) => ErrorView::UnknownStatus(v@),
            Error::OtherParseError(c, t) => ErrorView::Conversion(*c, t@),
        }
    }
}

/// What one key/value pair did to the accumulator.
#[derive(Debug)]
pub enum Fed {
    /// The pair was stored, or ignored as an unknown key.
    Absorbed,
    /// The pair completed a report, handed out here.
    Snapshot(Progress),
    /// The pair cannot be taken.
    Rejected(Error),
}

pub enum FedView {
    Absorbed,
    Snapshot(ProgressView),
    Rejected(ErrorView),
}

impl View for Fed {
    type V = FedView;

    open spec fn view(&self) -> FedView {
        match self {
            Fed::Absorbed => FedView::Absorbed,
            Fed::Snapshot(p) => FedView::Snapshot(p@),
            Fed::Rejected(e) => FedView::Rejected(e@),
        }
    }
}

pub open spec fn key_frame() -> Seq<char> {
    seq!['f', 'r', 'a', 'm', 'e']
}

pub open spec fn key_fps() -> Seq<char> {
    seq!['f', 'p', 's']
}

pub open spec fn key_total_size() -> Seq<char> {
    seq!['t', 'o', 't', 'a', 'l', '_', 's', 'i', 'z', 'e']
}

pub open spec fn key_out_time_us() -> Seq<char> {
    seq!['o', 'u', 't', '_', 't', 'i', 'm', 'e', '_', 'u', 's']
}

pub open spec fn key_dup_frames() -> Seq<char> {
    seq!['d', 'u', 'p', '_', 'f', 'r', 'a', 'm', 'e', 's']
}

pub open spec fn key_drop_frames() -> Seq<char> {
    seq!['d', 'r', 'o', 'p', '_', 'f', 'r', 'a', 'm', 'e', 's']
}

pub open spec fn key_speed() -> Seq<char> {
    seq!['s', 'p', 'e', 'e', 'd']
}

pub open spec fn key_progress() -> Seq<char> {
    seq!['p', 'r', 'o', 'g', 'r', 'e', 's', 's']
}

pub open spec fn word_continue() -> Seq<char> {
    seq!['c', 'o', 'n', 't', 'i', 'n', 'u', 'e']
}

pub open spec fn word_end() -> Seq<char> {
    seq!['e', 'n', 'd']
}

/// The text of a speed value without its one-character unit suffix.
pub open spec fn speed_number(v: Seq<char>) -> Seq<char> {
    if v.len() > 0 {
        v.drop_last()
    } else {
        v
    }
}

/// How an integer field takes `v`: the record with the field set, or the error.
pub open spec fn take_integer(
    cur: ProgressView,
    v: Seq<char>,
    set: spec_fn(u64) -> ProgressView,
) -> (ProgressView, FedView) {
    match u64_value(v) {
        Some(x) => (set(x), FedView::Absorbed),
        None => (cur, FedView::Rejected(ErrorView::Conversion(ConversionError::InvalidInteger, v))),
    }
}

/// The record after the pair `k`, `v`, and what the pair gave.
pub open spec fn fed(cur: ProgressView, k: Seq<char>, v: Seq<char>) -> (ProgressView, FedView) {
    if k == key_frame() {
        take_integer(cur, v, |x: u64| ProgressView { frame: Some(x), ..cur })
    } else if k == key_fps() {
        if float_text(v) {
            (ProgressView { fps: Some(v), ..cur }, FedView::Absorbed)
        } else {
            (cur, FedView::Rejected(ErrorView::Conversion(ConversionError::InvalidFloat, v)))
        }
    } else if k == key_total_size() {
        take_integer(cur, v, |x: u64| ProgressView { total_size: Some(x), ..cur })
    } else if k == key_out_time_us() {
        take_integer(cur, v, |x: u64| ProgressView { out_time: Some(x), ..cur })
    } else if k == key_dup_frames() {
        take_integer(cur, v, |x: u64| ProgressView { dup_frames: Some(x), ..cur })
    } else if k == key_drop_frames() {
        take_integer(cur, v, |x: u64| ProgressView { drop_frames: Some(x), ..cur })
    } else if k == key_speed() {
        let num = speed_number(v);
        if v.len() > 0 && float_text(num) {
            (ProgressView { speed: Some(num), ..cur }, FedView::Absorbed)
        } else {
            (cur, FedView::Rejected(ErrorView::Conversion(ConversionError::InvalidFloat, num)))
        }
    } else if k == key_progress() {
        if v == word_continue() {
            (empty_progress(), FedView::Snapshot(ProgressView { status: Status::Continue, ..cur }))
        } else if v == word_end() {
            (empty_progress(), FedView::Snapshot(ProgressView { status: Status::End, ..cur }))
        } else {
            (cur, FedView::Rejected(ErrorView::UnknownStatus(v)))
        }
    } else {
        (cur, FedView::Absorbed)
    }
}

/// Builds one [`Progress`] from the pairs of a report.
#[derive(Debug)]
pub struct Accumulator {
    current: Progress,
}

impl View for Accumulator {
    type V = ProgressView;

    closed spec fn view(&self) -> ProgressView {
        self.current@
    }
}

impl Accumulator {
    pub fn new() -> (r: Self)
        ensures
            r@ == empty_progress(),
    {
        Accumulator { current: Progress::new() }
    }

    /// The record gathered so far.
    pub fn current(&self) -> (r: &Progress)
        ensures
            r@ == self@,
    {
        &self.current
    }

    /// Takes one key/value pair.
    pub fn feed(&mut self, key: &str, value: &str) -> (r: Fed)
        ensures
            (final(self)@, r@) == fed(old(self)@, key@, value@),
    {
        proof {
            reveal_strlit("frame");
            reveal_strlit("fps");
            reveal_strlit("total_size");
            reveal_strlit("out_time_us");
            reveal_strlit("dup_frames");
            reveal_strlit("drop_frames");
            reveal_strlit("speed");
            reveal_strlit("progress");
            reveal_strlit("continue");
            reveal_strlit("end");
            assert("frame"@ =~= key_frame());
            assert("fps"@ =~= key_fps());
            assert("total_size"@ =~= key_total_size());
            assert("out_time_us"@ =~= key_out_time_us());
            assert("dup_frames"@ =~= key_dup_frames());
            assert("drop_frames"@ =~= key_drop_frames());
            assert("speed"@ =~= key_speed());
            assert("progress"@ =~= key_progress());
            assert("continue"@ =~= word_continue());
            assert("end"@ =~= word_end());
        }
        if same_text(key, "frame") {
            match parse_u64(value) {
                Some(x) => {
                    self.current.frame = Some(x);
                    Fed::Absorbed
                },
                None => Fed::Rejected(
                    Error::OtherParseError(ConversionError::InvalidInteger, value.to_owned()),
                ),
            }
        } else if same_text(key, "fps") {
            if is_float_text(value) {
                self.current.fps = Some(value.to_owned());
                Fed::Absorbed
            } else {
                Fed::Rejected(Error::OtherParseError(ConversionError::InvalidFloat, value.to_owned()))
            }
        } else if same_text(key, "total_size") {
            match parse_u64(value) {
                Some(x) => {
                    self.current.total_size = Some(x);
                    Fed::Absorbed
                },
                None => Fed::Rejected(
                    Error::OtherParseError(ConversionError::InvalidInteger, value.to_owned()),
                ),
            }
        } else if same_text(key, "out_time_us") {
            match parse_u64(value) {
                Some(x) => {
                    self.current.out_time = Some(x);
                    Fed::Absorbed
                },
                None => Fed::Rejected(
                    Error::OtherParseError(ConversionError::InvalidInteger, value.to_owned()),
                ),
            }
        } else if same_text(key, "dup_frames") {
            match parse_u64(value) {
                Some(x) => {
                    self.current.dup_frames = Some(x);
                    Fed::Absorbed
                },
                None => Fed::Rejected(
                    Error::OtherParseError(ConversionError::InvalidInteger, value.to_owned()),
                ),
            }
        } else if same_text(key, "drop_frames") {
            match parse_u64(value) {
                Some(x) => {
                    self.current.drop_frames = Some(x);
                    Fed::Absorbed
                },
                None => Fed::Rejected(
                    Error::OtherParseError(ConversionError::InvalidInteger, value.to_owned()),
                ),
            }
        } else if same_text(key, "speed") {
            let n = value.unicode_len();
            let num = if n > 0 {
                value.substring_char(0, n - 1)
            } else {
                value
            };
            assert(n > 0 ==> num@ =~= value@.drop_last());
            if n > 0 && is_float_text(num) {
                self.current.speed = Some(num.to_owned());
                Fed::Absorbed
            } else {
                Fed::Rejected(Error::OtherParseError(ConversionError::InvalidFloat, num.to_owned()))
            }
        } else if same_text(key, "progress") {
            let status = if same_text(value, "continue") {
                Status::Continue
            } else if same_text(value, "end") {
                Status::End
            } else {
                return Fed::Rejected(Error::UnknownStatusError(value.to_owned()));
            };
            let mut done = Progress::new();
            std::mem::swap(&mut done, &mut self.current);
            done.status = status;
            Fed::Snapshot(done)
        } else {
            Fed::Absorbed
        }
    }
}

} // verus!
