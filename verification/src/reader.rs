//! The reader of a connection: which frames it admits to dispatch, when, and
//! when it stops.
//!
//! A frame of the data path is dispatched in a task of its own that holds one
//! of `MAX_INFLIGHT` permits, so that frames overlap. A frame that must be
//! serialized is a barrier: the reader takes every permit, which no dispatch
//! then holds, and runs the frame itself before it reads on. A reader that
//! stops takes every permit once more before it returns.
//!
//! [`Reader::step`] decides what to do next on each thing that happens to the
//! reader, and [`Task::step`] on each thing that happens to a task; reading,
//! waiting and dispatching are the caller's part.

use vstd::prelude::*;

use crate::dispatch::frame_must_be_serialized;

verus! {

/// How many dispatches a connection may have in flight at once. A tuning
/// constant, not one of the protocol: it bounds memory and the number of
/// tasks.
pub const MAX_INFLIGHT: usize = 64;

/// Where a reader is; `E` is the transport's error.
#[derive(Debug)]
pub enum Reader<E> {
    /// Reading a frame, or waiting for the writer to close.
    Reading,
    /// Waiting for every permit, or for the writer to close, with a frame that
    /// must be serialized.
    AwaitingBarrier(Vec<u8>),
    /// Running a frame that must be serialized, with every permit.
    RunningInline,
    /// Sending the response to that frame, with every permit.
    SendingInline,
    /// Waiting for one permit, or for the writer to close, with a frame of the
    /// data path.
    AwaitingPermit(Vec<u8>),
    /// Waiting for every permit, to return this result.
    Draining(Result<(), E>),
    /// Returned.
    Stopped,
}

/// What can happen to a reader.
#[derive(Debug)]
pub enum Event<E> {
    /// The writer has closed; of several things this is always noticed first.
    WriterClosed,
    /// A frame was read. `shutting_down` says whether the server is by then.
    FrameRead { frame: Vec<u8>, shutting_down: bool },
    /// The client closed the connection.
    EndOfStream,
    /// A frame could not be read.
    ReadFailed(E),
    /// The permits that were waited for were granted.
    Granted,
    /// The frame that ran inline gave this response, if any.
    Response(Option<Vec<u8>>),
    /// The response was handed to the writer.
    Sent,
    /// The response could not be handed to the writer.
    SendFailed,
}

/// What a reader has to do next.
#[derive(Debug)]
pub enum Action<E> {
    /// Read a frame, unless the writer closes first.
    ReadFrame,
    /// Wait for this many permits, unless the writer closes first.
    Acquire { permits: usize },
    /// Dispatch the frame here, and keep the permits until it is answered.
    RunInline(Vec<u8>),
    /// Hand the response to the writer; then give the permits back.
    Send(Vec<u8>),
    /// Dispatch the frame in a [`Task`], which takes the permit over;
    /// meanwhile read a frame, unless the writer closes first.
    SpawnAndRead(Vec<u8>),
    /// Give back what permits are held, and wait for this many.
    Drain { permits: usize },
    /// Return this result.
    Return(Result<(), E>),
}

/// Whether an event can happen to a reader there.
pub open spec fn awaits<E>(reader: Reader<E>, event: Event<E>) -> bool {
    match reader {
        Reader::Reading => event is WriterClosed || event is FrameRead || event is EndOfStream
            || event is ReadFailed,
        Reader::AwaitingBarrier(_) => event is WriterClosed || event is Granted,
        Reader::RunningInline => event is Response,
        Reader::SendingInline => event is Sent || event is SendFailed,
        Reader::AwaitingPermit(_) => event is WriterClosed || event is Granted,
        Reader::Draining(_) => event is Granted,
        Reader::Stopped => false,
    }
}

/// Where a reader is after an event.
pub open spec fn next_state<E>(reader: Reader<E>, event: Event<E>) -> Reader<E> {
    match (reader, event) {
        (Reader::Reading, Event::FrameRead { frame, shutting_down }) => if shutting_down {
            Reader::Draining(Ok(()))
        } else if crate::dispatch::must_be_serialized(frame@) {
            Reader::AwaitingBarrier(frame)
        } else {
            Reader::AwaitingPermit(frame)
        },
        (Reader::Reading, Event::ReadFailed(e)) => Reader::Draining(Err(e)),
        (Reader::AwaitingBarrier(_), Event::Granted) => Reader::RunningInline,
        (Reader::RunningInline, Event::Response(Some(_))) => Reader::SendingInline,
        (Reader::RunningInline, Event::Response(None)) => Reader::Reading,
        (Reader::SendingInline, Event::Sent) => Reader::Reading,
        (Reader::AwaitingPermit(_), Event::Granted) => Reader::Reading,
        (Reader::Draining(_), _) => Reader::Stopped,
        (Reader::Stopped, _) => Reader::Stopped,
        _ => Reader::Draining(Ok(())),
    }
}

/// What a reader has to do after an event.
pub open spec fn action_on<E>(reader: Reader<E>, event: Event<E>) -> Action<E> {
    match (reader, event) {
        (Reader::Reading, Event::FrameRead { frame, shutting_down }) => if shutting_down {
            Action::Drain { permits: MAX_INFLIGHT }
        } else if crate::dispatch::must_be_serialized(frame@) {
            Action::Acquire { permits: MAX_INFLIGHT }
        } else {
            Action::Acquire { permits: 1 }
        },
        (Reader::AwaitingBarrier(frame), Event::Granted) => Action::RunInline(frame),
        (Reader::RunningInline, Event::Response(Some(bytes))) => Action::Send(bytes),
        (Reader::RunningInline, Event::Response(None)) => Action::ReadFrame,
        (Reader::SendingInline, Event::Sent) => Action::ReadFrame,
        (Reader::AwaitingPermit(frame), Event::Granted) => Action::SpawnAndRead(frame),
        (Reader::Draining(result), _) => Action::Return(result),
        _ => Action::Drain { permits: MAX_INFLIGHT },
    }
}

impl<E> Reader<E> {
    /// A reader of a new connection, and the first thing to do.
    pub fn start() -> (r: (Reader<E>, Action<E>))
        ensures
            r == (Reader::<E>::Reading, Action::<E>::ReadFrame),
    {
        (Reader::Reading, Action::ReadFrame)
    }

    /// Tells whether an event can happen to the reader here.
    pub fn expects(&self, event: &Event<E>) -> (r: bool)
        ensures
            r == awaits(*self, *event),
    {
        match (self, event) {
            (Reader::Reading, Event::WriterClosed) => true,
            (Reader::Reading, Event::FrameRead { .. }) => true,
            (Reader::Reading, Event::EndOfStream) => true,
            (Reader::Reading, Event::ReadFailed(_)) => true,
            (Reader::AwaitingBarrier(_), Event::WriterClosed) => true,
            (Reader::AwaitingBarrier(_), Event::Granted) => true,
            (Reader::RunningInline, Event::Response(_)) => true,
            (Reader::SendingInline, Event::Sent) => true,
            (Reader::SendingInline, Event::SendFailed) => true,
            (Reader::AwaitingPermit(_), Event::WriterClosed) => true,
            (Reader::AwaitingPermit(_), Event::Granted) => true,
            (Reader::Draining(_), Event::Granted) => true,
            _ => false,
        }
    }

    /// Decides what to do after an event that can happen here.
    pub fn step(self, event: Event<E>) -> (r: (Reader<E>, Action<E>))
        requires
            awaits(self, event),
        ensures
            r.0 == next_state(self, event),
            r.1 == action_on(self, event),
    {
        match (self, event) {
            (Reader::Reading, Event::FrameRead { frame, shutting_down }) => {
                if shutting_down {
                    (Reader::Draining(Ok(())), Action::Drain { permits: MAX_INFLIGHT })
                } else if frame_must_be_serialized(frame.as_slice()) {
                    (Reader::AwaitingBarrier(frame), Action::Acquire { permits: MAX_INFLIGHT })
                } else {
                    (Reader::AwaitingPermit(frame), Action::Acquire { permits: 1 })
                }
            },
            (Reader::Reading, Event::ReadFailed(e)) => {
                (Reader::Draining(Err(e)), Action::Drain { permits: MAX_INFLIGHT })
            },
            (Reader::AwaitingBarrier(frame), Event::Granted) => {
                (Reader::RunningInline, Action::RunInline(frame))
            },
            (Reader::RunningInline, Event::Response(Some(bytes))) => {
                (Reader::SendingInline, Action::Send(bytes))
            },
            (Reader::RunningInline, Event::Response(None)) => (Reader::Reading, Action::ReadFrame),
            (Reader::SendingInline, Event::Sent) => (Reader::Reading, Action::ReadFrame),
            (Reader::AwaitingPermit(frame), Event::Granted) => {
                (Reader::Reading, Action::SpawnAndRead(frame))
            },
            (Reader::Draining(result), _) => (Reader::Stopped, Action::Return(result)),
            _ => (Reader::Draining(Ok(())), Action::Drain { permits: MAX_INFLIGHT }),
        }
    }
}

/// Where the task of a data frame is. It holds one permit until it has ended.
#[derive(Debug, Clone, Copy, PartialEq, Eq, Structural)]
pub enum Task {
    /// Dispatching its frame.
    Running,
    /// Handing the response to the writer.
    Sending,
    /// Ended.
    Ended,
}

/// What can happen to a task.
#[derive(Debug)]
pub enum TaskEvent {
    /// The frame gave this response, if any.
    Response(Option<Vec<u8>>),
    /// The response was handed to the writer.
    Sent,
    /// The response could not be handed to the writer.
    SendFailed,
}

/// What a task has to do next.
#[derive(Debug)]
pub enum TaskAction {
    /// Hand the response to the writer.
    Send(Vec<u8>),
    /// Give the permit back and end.
    End,
}

/// Whether an event can happen to a task there.
pub open spec fn task_awaits(task: Task, event: TaskEvent) -> bool {
    match task {
        Task::Running => event is Response,
        Task::Sending => event is Sent || event is SendFailed,
        Task::Ended => false,
    }
}

/// Where a task is after an event: one that has a response sends it, and ends
/// once that is done or has failed.
pub open spec fn next_task(task: Task, event: TaskEvent) -> Task {
    match (task, event) {
        (Task::Running, TaskEvent::Response(Some(_))) => Task::Sending,
        _ => Task::Ended,
    }
}

/// What a task has to do after an event.
pub open spec fn task_action_on(task: Task, event: TaskEvent) -> TaskAction {
    match (task, event) {
        (Task::Running, TaskEvent::Response(Some(bytes))) => TaskAction::Send(bytes),
        _ => TaskAction::End,
    }
}

impl Task {
    /// The task of a frame that is to be dispatched.
    pub fn start() -> (task: Task)
        ensures
            task == Task::Running,
    {
        Task::Running
    }

    /// Tells whether an event can happen to the task here.
    pub fn expects(self, event: &TaskEvent) -> (r: bool)
        ensures
            r == task_awaits(self, *event),
    {
        match (self, event) {
            (Task::Running, TaskEvent::Response(_)) => true,
            (Task::Sending, TaskEvent::Sent) => true,
            (Task::Sending, TaskEvent::SendFailed) => true,
            _ => false,
        }
    }

    /// Decides what to do after an event that can happen here.
    pub fn step(self, event: TaskEvent) -> (r: (Task, TaskAction))
        requires
            task_awaits(self, event),
        ensures
            r.0 == next_task(self, event),
            r.1 == task_action_on(self, event),
    {
        match (self, event) {
            (Task::Running, TaskEvent::Response(Some(bytes))) => {
                (Task::Sending, TaskAction::Send(bytes))
            },
            _ => (Task::Ended, TaskAction::End),
        }
    }
}

} // verus!
