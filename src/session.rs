//! The decisions of a progress session's read loop. The caller performs the
//! I/O: it reads a line, or learns that the connection ended or failed, hands
//! that event to the [`ReadLoop`], and carries out the returned [`Step`].
use vstd::prelude::*;
use crate::progress::{
    Accumulator, Error, ErrorView, Fed, FedView, Progress, ProgressView, Status, empty_progress, fed,
};
use crate::protocol::{parse_line, split_line};

verus! {

/// What the caller does after an event.
#[derive(Debug)]
pub enum Step {
    /// Nothing to publish; read the next line.
    Wait,
    /// Publish this snapshot, then read the next line.
    Publish(Progress),
    /// Publish this item, then close the channel and stop.
    PublishLast(Result<Progress, Error>),
    /// Close the channel and stop, publishing nothing.
    Close,
}

pub enum StepView {
    Wait,
    Publish(ProgressView),
    PublishLast(Result<ProgressView, ErrorView>),
    Close,
}

impl View for Step {
    type V = StepView;

    open spec fn view(&self) -> StepView {
        match self {
            Step::Wait => StepView::Wait,
            Step::Publish(p) => StepView::Publish(p@),
            Step::PublishLast(Ok(p)) => StepView::PublishLast(Ok(p@)),
            Step::PublishLast(Err(e)) => StepView::PublishLast(Err(e@)),
            Step::Close => StepView::Close,
        }
    }
}

/// The state of a read loop: the report being gathered, and whether the loop
/// has stopped.
pub struct LoopState {
    pub progress: ProgressView,
    pub finished: bool,
}

/// The state of a loop that has read nothing yet.
pub open spec fn initial_state() -> LoopState {
    LoopState { progress: empty_progress(), finished: false }
}

/// The state after one line, and what the caller does.
pub open spec fn line_step(s: LoopState, line: Seq<char>) -> (LoopState, StepView) {
    if s.finished {
        (s, StepView::Close)
    } else {
        match split_line(line) {
            None => (
                LoopState { finished: true, ..s },
                StepView::PublishLast(Err(ErrorView::KeyValue(line))),
            ),
            Some((k, v)) => {
                let (p, out) = fed(s.progress, k, v);
                match out {
                    FedView::Absorbed => (LoopState { progress: p, finished: false }, StepView::Wait),
                    FedView::Snapshot(q) => if q.status == Status::End {
                        (LoopState { progress: p, finished: true }, StepView::PublishLast(Ok(q)))
                    } else {
                        (LoopState { progress: p, finished: false }, StepView::Publish(q))
                    },
                    FedView::Rejected(e) => (
                        LoopState { progress: p, finished: true },
                        StepView::PublishLast(Err(e)),
                    ),
                }
            },
        }
    }
}

/// The state of a stopped loop, whatever it gathered.
pub open spec fn stopped(s: LoopState) -> LoopState {
    LoopState { finished: true, ..s }
}

/// The read loop of one session.
#[derive(Debug)]
pub struct ReadLoop {
    acc: Accumulator,
    finished: bool,
}

impl View for ReadLoop {
    type V = LoopState;

    closed spec fn view(&self) -> LoopState {
        LoopState { progress: self.acc@, finished: self.finished }
    }
}

impl ReadLoop {
    pub fn new() -> (r: Self)
        ensures
            r@ == initial_state(),
    {
        ReadLoop { acc: Accumulator::new(), finished: false }
    }

    /// Whether the loop has stopped.
    pub fn is_finished(&self) -> (r: bool)
        ensures
            r == self@.finished,
    {
        self.finished
    }

    /// One line was read.
    pub fn on_line(&mut self, line: &str) -> (r: Step)
        ensures
            (final(self)@, r@) == line_step(old(self)@, line@),
    {
        if self.finished {
            return Step::Close;
        }
        match parse_line(line) {
            None => {
                self.finished = true;
                Step::PublishLast(Err(Error::KeyValueParseError(line.to_owned())))
            },
            Some((key, value)) => match self.acc.feed(key, value) {
                Fed::Absorbed => Step::Wait,
                Fed::Snapshot(p) => {
                    if p.status == Status::End {
                        self.finished = true;
                        Step::PublishLast(Ok(p))
                    } else {
                        Step::Publish(p)
                    }
                },
                Fed::Rejected(e) => {
                    self.finished = true;
                    Step::PublishLast(Err(e))
                },
            },
        }
    }

    /// The connection ended (a read of zero bytes). Whatever was gathered of
    /// an unfinished report is dropped.
    pub fn on_end_of_stream(&mut self) -> (r: Step)
        ensures
            final(self)@ == stopped(old(self)@),
            r@ == StepView::Close,
    {
        self.finished = true;
        Step::Close
    }

    /// Reading the connection failed.
    pub fn on_read_error(&mut self, e: std::io::Error) -> (r: Step)
        ensures
            final(self)@ == stopped(old(self)@),
            old(self)@.finished ==> r@ == StepView::Close,
            !old(self)@.finished ==> r@ == StepView::PublishLast(Err(ErrorView::Io)),
    {
        if self.finished {
            return Step::Close;
        }
        self.finished = true;
        Step::PublishLast(Err(Error::IoError(e)))
    }

    /// Publishing failed: the consumer has gone.
    pub fn on_publish_failed(&mut self) -> (r: Step)
        ensures
            final(self)@ == stopped(old(self)@),
            r@ == StepView::Close,
    {
        self.finished = true;
        Step::Close
    }
}

} // verus!
