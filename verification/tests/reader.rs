//! A connection's reader, driven over a byte stream with a counted set of
//! permits.

use smb_server::frame::{encode_frame, read_one_frame, FrameError, FrameHeaderError};
use smb_server::reader::{Action, Event, Reader, Task, TaskAction, TaskEvent, MAX_INFLIGHT};

const ECHO: u16 = 0x000D;
const READ: u16 = 0x0008;
const TREE_DISCONNECT: u16 = 0x0004;
const LOGOFF: u16 = 0x0002;
const CANCEL: u16 = 0x000C;

type Failure = FrameError<()>;

/// A message header, 64 bytes.
fn header(command: u16, message_id: u64, next_command: u32) -> Vec<u8> {
    let mut h = Vec::new();
    h.extend_from_slice(&[0xFE, b'S', b'M', b'B']);
    h.extend_from_slice(&64u16.to_le_bytes());
    h.extend_from_slice(&1u16.to_le_bytes());
    h.extend_from_slice(&0u32.to_le_bytes());
    h.extend_from_slice(&command.to_le_bytes());
    h.extend_from_slice(&64u16.to_le_bytes());
    h.extend_from_slice(&0u32.to_le_bytes());
    h.extend_from_slice(&next_command.to_le_bytes());
    h.extend_from_slice(&message_id.to_le_bytes());
    h.extend_from_slice(&[0u8; 8]);
    h.extend_from_slice(&1u64.to_le_bytes());
    h.extend_from_slice(&[0u8; 16]);
    assert_eq!(h.len(), 64);
    h
}

fn header_command(frame: &[u8]) -> u16 {
    u16::from_le_bytes([frame[12], frame[13]])
}

fn message_id(frame: &[u8]) -> u64 {
    let mut id = [0u8; 8];
    id.copy_from_slice(&frame[24..32]);
    u64::from_le_bytes(id)
}

/// A CANCEL has no response; every other frame is answered by a longer one.
fn dispatch(frame: &[u8]) -> Option<Vec<u8>> {
    if header_command(frame) == CANCEL {
        return None;
    }
    let mut response = frame.to_vec();
    response.extend_from_slice(b"done");
    Some(response)
}

/// The surroundings of a reader: the stream, the permits, the dispatches that
/// are parked, the writer.
struct Connection {
    reader: Option<Reader<Failure>>,
    action: Option<Action<Failure>>,
    incoming: Vec<u8>,
    eof: bool,
    shutting_down: bool,
    writer_closed: bool,
    free: usize,
    held: usize,
    parked: Vec<Vec<u8>>,
    entered: Vec<Vec<u8>>,
    sent: Vec<Vec<u8>>,
    returned: Option<Result<(), Failure>>,
}

impl Connection {
    fn new() -> Connection {
        let (reader, action) = Reader::start();
        Connection {
            reader: Some(reader),
            action: Some(action),
            incoming: Vec::new(),
            eof: false,
            shutting_down: false,
            writer_closed: false,
            free: MAX_INFLIGHT,
            held: 0,
            parked: Vec::new(),
            entered: Vec::new(),
            sent: Vec::new(),
            returned: None,
        }
    }

    fn write_frame(&mut self, payload: &[u8]) {
        encode_frame(payload, &mut self.incoming);
    }

    fn give_back(&mut self) {
        self.free += self.held;
        self.held = 0;
    }

    /// Takes one frame off the stream, if reading one would end by now.
    fn read(&mut self) -> Option<Event<Failure>> {
        let (outcome, taken) = read_one_frame::<()>(&self.incoming);
        match outcome {
            Ok(Some(frame)) => {
                self.incoming.drain(..taken);
                Some(Event::FrameRead { frame, shutting_down: self.shutting_down })
            }
            Ok(None) if self.eof => Some(Event::EndOfStream),
            Ok(None) => None,
            Err(FrameError::Truncated) if !self.eof => None,
            Err(e) => Some(Event::ReadFailed(e)),
        }
    }

    /// Runs the reader until it has to wait.
    fn poll(&mut self) {
        while let Some(action) = self.action.take() {
            let event = match &action {
                Action::ReadFrame => {
                    self.give_back();
                    if self.writer_closed { Some(Event::WriterClosed) } else { self.read() }
                }
                Action::Acquire { permits } => {
                    if self.writer_closed {
                        Some(Event::WriterClosed)
                    } else if self.free >= *permits {
                        self.free -= permits;
                        self.held = *permits;
                        Some(Event::Granted)
                    } else {
                        None
                    }
                }
                Action::RunInline(frame) => {
                    assert_eq!(self.held, MAX_INFLIGHT);
                    assert!(self.parked.is_empty());
                    self.entered.push(frame.clone());
                    Some(Event::Response(dispatch(frame)))
                }
                Action::Send(bytes) => {
                    if self.writer_closed {
                        Some(Event::SendFailed)
                    } else {
                        self.sent.push(bytes.clone());
                        Some(Event::Sent)
                    }
                }
                Action::SpawnAndRead(frame) => {
                    assert_eq!(self.held, 1);
                    self.held = 0;
                    self.entered.push(frame.clone());
                    self.parked.push(frame.clone());
                    self.action = Some(Action::ReadFrame);
                    continue;
                }
                Action::Drain { permits } => {
                    self.give_back();
                    if self.free >= *permits {
                        self.free -= permits;
                        self.held = *permits;
                        Some(Event::Granted)
                    } else {
                        None
                    }
                }
                Action::Return(_) => None,
            };
            if let Action::Return(result) = action {
                self.returned = Some(result);
                return;
            }
            match event {
                None => {
                    self.action = Some(action);
                    return;
                }
                Some(event) => {
                    let reader = self.reader.take().unwrap();
                    assert!(reader.expects(&event));
                    let (reader, action) = reader.step(event);
                    self.reader = Some(reader);
                    self.action = Some(action);
                }
            }
        }
    }

    /// Lets a parked dispatch answer and end.
    fn release(&mut self, at: usize) {
        let frame = self.parked.remove(at);
        let mut task = Task::start();
        let mut event = TaskEvent::Response(dispatch(&frame));
        loop {
            assert!(task.expects(&event));
            let (next, action) = task.step(event);
            task = next;
            event = match action {
                TaskAction::Send(_) if self.writer_closed => TaskEvent::SendFailed,
                TaskAction::Send(bytes) => {
                    self.sent.push(bytes);
                    TaskEvent::Sent
                }
                TaskAction::End => break,
            };
        }
        assert_eq!(task, Task::Ended);
        self.free += 1;
        self.poll();
    }

    fn release_one(&mut self) {
        self.release(0);
    }

    fn release_all(&mut self) {
        while !self.parked.is_empty() {
            self.release_one();
        }
    }

    /// The commands of the frames that the responses answer.
    fn responses(&self) -> Vec<u16> {
        self.sent.iter().map(|bytes| header_command(bytes)).collect()
    }

    /// The message ids of the frames that the responses answer.
    fn answered_ids(&self) -> Vec<u64> {
        self.sent.iter().map(|bytes| message_id(bytes)).collect()
    }

    fn entered_commands(&self) -> Vec<u16> {
        self.entered.iter().map(|f| header_command(f)).collect()
    }
}

#[test]
fn concurrent_dispatch_lets_two_reads_overlap() {
    let mut c = Connection::new();
    for i in 0..2u64 {
        c.write_frame(&header(READ, 10 + i, 0));
    }
    c.poll();
    assert_eq!(c.entered.len(), 2, "second READ must enter concurrently with the first");
    assert_eq!(c.entered[0], header(READ, 10, 0));
    assert_eq!(c.entered[1], header(READ, 11, 0));
    assert!(c.sent.is_empty());
    c.release_all();
    assert_eq!(c.responses(), vec![READ, READ]);
}

#[test]
fn tree_disconnect_does_not_enter_until_the_read_response_is_enqueued() {
    let mut c = Connection::new();
    c.write_frame(&header(READ, 1, 0));
    c.poll();
    assert_eq!(c.entered_commands(), vec![READ], "READ must enter");

    c.write_frame(&header(TREE_DISCONNECT, 2, 0));
    c.poll();
    assert!(
        !c.entered_commands().contains(&TREE_DISCONNECT),
        "TREE_DISCONNECT must not enter while a READ is in flight"
    );

    c.release_all();
    assert_eq!(c.responses(), vec![READ, TREE_DISCONNECT]);
    assert!(c.entered_commands().contains(&TREE_DISCONNECT));
    assert_eq!(c.free, MAX_INFLIGHT);
}

#[test]
fn backpressure_holds_at_max_inflight() {
    let mut c = Connection::new();
    for i in 0..MAX_INFLIGHT as u64 {
        c.write_frame(&header(READ, i, 0));
    }
    c.poll();
    assert_eq!(c.entered.len(), MAX_INFLIGHT);

    c.write_frame(&header(READ, MAX_INFLIGHT as u64, 0));
    c.poll();
    assert_eq!(
        c.entered.len(),
        MAX_INFLIGHT,
        "the (MAX_INFLIGHT+1)th READ must not be dispatched while every permit is held"
    );

    c.release_one();
    assert_eq!(
        c.entered.len(),
        MAX_INFLIGHT + 1,
        "the extra READ must be admitted once a permit frees up"
    );
    c.release_all();
    assert_eq!(c.sent.len(), MAX_INFLIGHT + 1);
}

#[test]
fn drain_waits_for_inflight_dispatch_on_clean_eof() {
    let mut c = Connection::new();
    c.write_frame(&header(READ, 1, 0));
    c.poll();
    assert_eq!(c.entered.len(), 1);
    c.eof = true;
    c.poll();
    assert!(c.returned.is_none(), "clean EOF with an in-flight dispatch");
    c.release_all();
    assert!(matches!(c.returned, Some(Ok(()))));
}

#[test]
fn drain_waits_for_inflight_dispatch_on_read_error() {
    let mut c = Connection::new();
    c.write_frame(&header(READ, 1, 0));
    c.poll();
    assert_eq!(c.entered.len(), 1);

    // A header that promises 100 bytes, followed by only 10.
    let mut malformed = Vec::new();
    encode_frame(&[0u8; 100], &mut malformed);
    malformed.truncate(4 + 10);
    c.incoming.extend_from_slice(&malformed);
    c.eof = true;
    c.poll();
    assert!(c.returned.is_none(), "a read error with an in-flight dispatch");
    c.release_all();
    assert!(
        matches!(c.returned, Some(Err(FrameError::Truncated))),
        "a mid-body EOF must surface as a read error"
    );
}

#[test]
fn closed_writer_stops_admission_while_idle() {
    let mut c = Connection::new();
    c.writer_closed = true;
    c.poll();
    assert!(matches!(c.returned, Some(Ok(()))));
}

#[test]
fn closed_writer_stops_admission_with_frame_already_readable() {
    let mut c = Connection::new();
    c.write_frame(&header(ECHO, 1, 0));
    c.writer_closed = true;
    c.poll();
    assert!(matches!(c.returned, Some(Ok(()))));
    assert!(
        !c.entered_commands().contains(&ECHO),
        "an already-readable ECHO must not be admitted once the writer is closed"
    );
}

#[test]
fn closed_writer_stops_admission_at_the_inflight_bound() {
    let mut c = Connection::new();
    for i in 0..=MAX_INFLIGHT as u64 {
        c.write_frame(&header(READ, i, 0));
    }
    c.poll();
    assert_eq!(c.entered.len(), MAX_INFLIGHT);

    c.writer_closed = true;
    c.poll();
    assert_eq!(
        c.entered.len(),
        MAX_INFLIGHT,
        "the extra READ must not be admitted once the writer closes"
    );
    assert!(c.returned.is_none(), "closed writer at the inflight bound, dispatches still parked");
    c.release_all();
    assert!(matches!(c.returned, Some(Ok(()))));
    assert_eq!(c.entered.len(), MAX_INFLIGHT);
}

#[test]
fn closed_writer_stops_admission_at_the_serialization_barrier() {
    let mut c = Connection::new();
    c.write_frame(&header(READ, 1, 0));
    c.write_frame(&header(TREE_DISCONNECT, 2, 0));
    c.poll();
    assert_eq!(c.entered_commands(), vec![READ]);

    c.writer_closed = true;
    c.release_all();
    c.poll();
    assert!(matches!(c.returned, Some(Ok(()))));
    assert!(
        !c.entered_commands().contains(&TREE_DISCONNECT),
        "TREE_DISCONNECT must not enter dispatch once the writer has closed"
    );
}

#[test]
fn a_setup_command_deep_in_a_compound_chain_is_a_barrier() {
    let mut frame = header(READ, 1, 64);
    frame.extend_from_slice(&header(LOGOFF, 2, 0));
    let mut c = Connection::new();
    c.write_frame(&header(READ, 0, 0));
    c.write_frame(&frame);
    c.poll();
    assert_eq!(c.entered.len(), 1);
    c.release_all();
    assert_eq!(c.entered, vec![header(READ, 0, 0), frame]);
}

#[test]
fn frames_behind_a_barrier_wait_for_it() {
    let mut c = Connection::new();
    c.write_frame(&header(READ, 1, 0));
    c.write_frame(&header(TREE_DISCONNECT, 2, 0));
    c.write_frame(&header(READ, 3, 0));
    c.poll();
    assert_eq!(c.entered_commands(), vec![READ]);
    c.release_one();
    assert_eq!(c.entered_commands(), vec![READ, TREE_DISCONNECT, READ]);
    assert_eq!(c.responses(), vec![READ, TREE_DISCONNECT]);
}

#[test]
fn a_frame_read_during_shutdown_is_dropped() {
    let mut c = Connection::new();
    c.write_frame(&header(READ, 1, 0));
    c.poll();
    c.shutting_down = true;
    c.write_frame(&header(READ, 2, 0));
    c.poll();
    assert_eq!(c.entered.len(), 1);
    assert!(c.returned.is_none());
    c.release_all();
    assert!(matches!(c.returned, Some(Ok(()))));
}

#[test]
fn an_inline_frame_without_a_response_lets_the_reader_go_on() {
    let reader: Reader<()> = Reader::RunningInline;
    let (reader, action) = reader.step(Event::Response(None));
    assert!(matches!(reader, Reader::Reading));
    assert!(matches!(action, Action::ReadFrame));
}

#[test]
fn a_response_that_cannot_be_sent_stops_the_reader() {
    let reader: Reader<()> = Reader::SendingInline;
    let (reader, action) = reader.step(Event::SendFailed);
    assert!(matches!(reader, Reader::Draining(Ok(()))));
    assert!(matches!(action, Action::Drain { permits: MAX_INFLIGHT }));
}

#[test]
fn a_bad_frame_header_is_the_readers_error() {
    let mut c = Connection::new();
    c.incoming = vec![0x85, 0, 0, 0];
    c.poll();
    assert!(matches!(c.returned, Some(Err(FrameError::BadHeader(_)))));
}

#[test]
fn events_that_cannot_happen_are_not_expected() {
    let reader: Reader<()> = Reader::Reading;
    assert!(!reader.expects(&Event::Granted));
    assert!(!reader.expects(&Event::Sent));
    assert!(reader.expects(&Event::EndOfStream));
    let stopped: Reader<()> = Reader::Stopped;
    assert!(!stopped.expects(&Event::WriterClosed));
    let running: Reader<()> = Reader::RunningInline;
    assert!(!running.expects(&Event::WriterClosed));
}

#[test]
fn responses_keep_to_the_barriers() {
    let mut c = Connection::new();
    c.write_frame(&header(READ, 1, 0));
    c.write_frame(&header(READ, 2, 0));
    c.write_frame(&header(TREE_DISCONNECT, 3, 0));
    c.write_frame(&header(READ, 4, 0));
    c.write_frame(&header(READ, 5, 0));
    c.poll();
    // The last one first, on each side of the barrier.
    c.release(1);
    c.release(0);
    assert_eq!(c.answered_ids(), vec![2, 1, 3]);
    c.release(1);
    c.release(0);
    assert_eq!(c.answered_ids(), vec![2, 1, 3, 5, 4]);
}

#[test]
fn an_undisturbed_session_answers_each_frame_once() {
    let frames = vec![
        header(READ, 1, 0),
        header(CANCEL, 2, 0),
        header(TREE_DISCONNECT, 3, 0),
        header(READ, 4, 0),
        header(ECHO, 5, 0),
    ];
    let mut c = Connection::new();
    for frame in &frames {
        c.write_frame(frame);
    }
    c.eof = true;
    c.poll();
    c.release(1);
    c.release(0);
    assert!(c.returned.is_none());
    c.release(1);
    c.release(0);
    assert!(matches!(c.returned, Some(Ok(()))));
    assert_eq!(c.entered, frames);

    let mut expected: Vec<Vec<u8>> = frames.iter().filter_map(|f| dispatch(f)).collect();
    assert_eq!(expected.len(), 4);
    let mut sent = c.sent.clone();
    expected.sort();
    sent.sort();
    assert_eq!(sent, expected);
}

#[test]
fn responses_to_a_closed_writer_are_dropped_and_the_permits_given_back() {
    let mut c = Connection::new();
    c.write_frame(&header(READ, 1, 0));
    c.write_frame(&header(READ, 2, 0));
    c.poll();
    c.release_one();
    c.writer_closed = true;
    c.release_one();
    assert_eq!(c.answered_ids(), vec![1]);
    assert!(matches!(c.returned, Some(Ok(()))));
}

#[test]
fn a_task_sends_its_response_and_ends() {
    let (task, action) = Task::start().step(TaskEvent::Response(Some(vec![1, 2, 3])));
    assert_eq!(task, Task::Sending);
    assert!(matches!(action, TaskAction::Send(bytes) if bytes == [1, 2, 3]));
    assert!(!task.expects(&TaskEvent::Response(None)));
    for event in [TaskEvent::Sent, TaskEvent::SendFailed] {
        assert!(task.expects(&event));
        let (ended, action) = task.step(event);
        assert_eq!(ended, Task::Ended);
        assert!(matches!(action, TaskAction::End));
        assert!(!ended.expects(&TaskEvent::Sent));
    }
}

#[test]
fn a_task_without_a_response_ends_at_once() {
    let task = Task::start();
    assert!(!task.expects(&TaskEvent::Sent));
    let (task, action) = task.step(TaskEvent::Response(None));
    assert_eq!(task, Task::Ended);
    assert!(matches!(action, TaskAction::End));
}

#[test]
fn a_garbled_stream_serves_the_frames_in_front() {
    let mut c = Connection::new();
    c.write_frame(&header(READ, 1, 0));
    c.write_frame(&header(TREE_DISCONNECT, 2, 0));
    c.incoming.extend_from_slice(&[0x81, 0, 0, 0, 1, 2, 3]);
    c.eof = true;
    c.poll();
    c.release_all();
    assert!(matches!(
        c.returned,
        Some(Err(FrameError::BadHeader(FrameHeaderError::NonZeroType(0x81))))
    ));
    assert_eq!(c.entered, vec![header(READ, 1, 0), header(TREE_DISCONNECT, 2, 0)]);
    assert_eq!(c.answered_ids(), vec![1, 2]);
}
