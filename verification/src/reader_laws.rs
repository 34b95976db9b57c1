//! What holds of a connection whose reader and tasks do as [`Reader::step`] and
//! [`Task::step`] say.
//!
//! The connection is modelled with its `MAX_INFLIGHT` permits: they are
//! granted only while they are free, a task keeps its permit until it has
//! ended, and a closed writer is noticed before anything else that the reader
//! waits for at the same time. A response can be handed to the writer exactly
//! as long as the writer has not closed.

use vstd::prelude::*;

use vstd::multiset::Multiset;

use crate::frame::FrameError;
use crate::reader::{Event, Reader, Task, TaskEvent, MAX_INFLIGHT};

verus! {

/// A frame that was given to dispatch, and what has become of it.
pub ghost struct Admission {
    pub frame: Seq<u8>,
    /// Whether the reader itself runs it.
    pub inline: bool,
    /// The task that runs it; ended from the start if the reader does.
    pub task: Task,
    /// What the dispatch gave, once it has: a response, or none.
    pub response: Option<Option<Seq<u8>>>,
    /// What was last to be handed to the writer for it.
    pub offer: Option<Seq<u8>>,
    /// Whether that was handed over.
    pub delivered: bool,
}

/// A response that was handed to the writer, and the admitted frame, by its
/// place, for which it was.
pub ghost struct Delivery {
    pub index: int,
    pub bytes: Seq<u8>,
}

/// A connection.
pub ghost struct Connection<E> {
    /// Where the reader is.
    pub reader: Reader<E>,
    /// The permits that the reader waits for, or last waited for.
    pub wanted: int,
    /// The permits that the reader itself holds.
    pub held: int,
    /// Whether the writer has closed.
    pub writer_closed: bool,
    /// The frames that were read, in order.
    pub read: Seq<Seq<u8>>,
    /// The frames that were given to dispatch, in order.
    pub admitted: Seq<Admission>,
    /// The responses that were handed to the writer, in order.
    pub sent: Seq<Delivery>,
    /// What ended the reading, once it has ended.
    pub ending: Option<Event<E>>,
    /// What the reader returned, once it has.
    pub returned: Option<Result<(), E>>,
}

/// What can happen on a connection.
pub ghost enum Happening<E> {
    /// Something happens to the reader.
    ToReader(Event<E>),
    /// Something happens to the task of an admitted frame.
    ToTask { index: int, event: TaskEvent },
    /// The writer closes.
    WriterCloses,
}

/// The response of a dispatch, as a sequence.
pub open spec fn response_view(response: Option<Vec<u8>>) -> Option<Seq<u8>> {
    match response {
        Some(bytes) => Some(bytes@),
        None => None,
    }
}

/// How many frames have a task that has not ended.
pub open spec fn tasks_in_flight(admitted: Seq<Admission>) -> int
    decreases admitted.len(),
{
    if admitted.len() == 0 {
        0
    } else {
        tasks_in_flight(admitted.drop_last()) + if admitted.last().task is Ended {
            0int
        } else {
            1int
        }
    }
}

/// The responses that the dispatches gave.
pub open spec fn responses_given(admitted: Seq<Admission>) -> Multiset<Seq<u8>>
    decreases admitted.len(),
{
    if admitted.len() == 0 {
        Multiset::empty()
    } else {
        match admitted.last().response {
            Some(Some(bytes)) => responses_given(admitted.drop_last()).insert(bytes),
            _ => responses_given(admitted.drop_last()),
        }
    }
}

/// The responses that are marked as handed over.
pub open spec fn responses_delivered(admitted: Seq<Admission>) -> Multiset<Seq<u8>>
    decreases admitted.len(),
{
    if admitted.len() == 0 {
        Multiset::empty()
    } else if admitted.last().delivered {
        responses_delivered(admitted.drop_last()).insert(admitted.last().response->0->0)
    } else {
        responses_delivered(admitted.drop_last())
    }
}

impl<E> Connection<E> {
    /// A new connection.
    pub open spec fn new() -> Connection<E> {
        Connection {
            reader: Reader::Reading,
            wanted: 0,
            held: 0,
            writer_closed: false,
            read: Seq::empty(),
            admitted: Seq::empty(),
            sent: Seq::empty(),
            ending: None,
            returned: None,
        }
    }

    /// The dispatches that run in tasks of their own, with a permit each.
    pub open spec fn in_flight(self) -> int {
        tasks_in_flight(self.admitted)
    }

    /// The permits that nobody holds.
    pub open spec fn free(self) -> int {
        MAX_INFLIGHT - self.held - self.in_flight()
    }

    /// Whether the reader is waiting for the writer to close, besides
    /// something else.
    pub open spec fn watches_writer(self) -> bool {
        self.reader is Reading || self.reader is AwaitingBarrier || self.reader is AwaitingPermit
    }

    /// Whether the reader is running a frame itself, or sending its response.
    pub open spec fn runs_inline(self) -> bool {
        self.reader is RunningInline || self.reader is SendingInline
    }

    /// Whether something can happen next.
    pub open spec fn can_happen(self, h: Happening<E>) -> bool {
        match h {
            Happening::ToReader(event) => {
                &&& crate::reader::awaits(self.reader, event)
                &&& event is Granted ==> self.wanted <= self.free()
                &&& self.watches_writer() ==> (event is WriterClosed <==> self.writer_closed)
                &&& event is Sent ==> !self.writer_closed
                &&& event is SendFailed ==> self.writer_closed
            },
            Happening::ToTask { index, event } => {
                &&& 0 <= index < self.admitted.len()
                &&& crate::reader::task_awaits(self.admitted[index].task, event)
                &&& event is Sent ==> !self.writer_closed
                &&& event is SendFailed ==> self.writer_closed
            },
            Happening::WriterCloses => true,
        }
    }

    /// The connection once the dispatch of a frame has given a response, or
    /// none.
    pub open spec fn responded(self, i: int, response: Option<Seq<u8>>) -> Connection<E> {
        Connection {
            admitted: self.admitted.update(
                i,
                Admission { response: Some(response), ..self.admitted[i] },
            ),
            ..self
        }
    }

    /// The connection once bytes are to be handed to the writer for a frame.
    pub open spec fn offered(self, i: int, bytes: Seq<u8>) -> Connection<E> {
        Connection {
            admitted: self.admitted.update(
                i,
                Admission { offer: Some(bytes), ..self.admitted[i] },
            ),
            ..self
        }
    }

    /// The connection once those bytes have been handed over.
    pub open spec fn delivered(self, i: int) -> Connection<E> {
        Connection {
            admitted: self.admitted.update(i, Admission { delivered: true, ..self.admitted[i] }),
            sent: self.sent.push(Delivery { index: i, bytes: self.admitted[i].offer->0 }),
            ..self
        }
    }

    /// The connection with a frame more given to dispatch.
    pub open spec fn admits(self, frame: Seq<u8>, inline: bool) -> Connection<E> {
        Connection {
            admitted: self.admitted.push(
                Admission {
                    frame,
                    inline,
                    task: if inline { Task::Ended } else { Task::Running },
                    response: None,
                    offer: None,
                    delivered: false,
                },
            ),
            ..self
        }
    }

    /// The connection by what an event to the reader says.
    pub open spec fn heard(self, event: Event<E>) -> Connection<E> {
        let last = self.admitted.len() - 1;
        match event {
            Event::FrameRead { frame, .. } => Connection {
                read: self.read.push(frame@),
                ..self
            },
            Event::Granted => Connection { held: self.wanted, ..self },
            Event::Response(response) => self.responded(last, response_view(response)),
            Event::Sent => self.delivered(last),
            _ => self,
        }
    }

    /// The connection once the caller of the reader does what it says.
    pub open spec fn acts(self, action: crate::reader::Action<E>) -> Connection<E> {
        match action {
            crate::reader::Action::ReadFrame => Connection { held: 0, ..self },
            crate::reader::Action::Acquire { permits } => Connection {
                wanted: permits as int,
                ..self
            },
            crate::reader::Action::RunInline(frame) => self.admits(frame@, true),
            crate::reader::Action::Send(bytes) => self.offered(self.admitted.len() - 1, bytes@),
            crate::reader::Action::SpawnAndRead(frame) => (Connection {
                held: self.held - 1,
                ..self
            }).admits(frame@, false),
            crate::reader::Action::Drain { permits } => Connection {
                held: 0,
                wanted: permits as int,
                ..self
            },
            crate::reader::Action::Return(result) => Connection { returned: Some(result), ..self },
        }
    }

    /// The connection after an event to the reader.
    pub open spec fn after_reader(self, event: Event<E>) -> Connection<E> {
        let reader = crate::reader::next_state(self.reader, event);
        Connection {
            reader,
            ending: if self.ending is None && reader is Draining {
                Some(event)
            } else {
                self.ending
            },
            ..self.heard(event).acts(crate::reader::action_on(self.reader, event))
        }
    }

    /// The connection by what an event to a task says.
    pub open spec fn task_heard(self, i: int, event: TaskEvent) -> Connection<E> {
        match event {
            TaskEvent::Response(response) => self.responded(i, response_view(response)),
            TaskEvent::Sent => self.delivered(i),
            TaskEvent::SendFailed => self,
        }
    }

    /// The connection once a task does what it has to.
    pub open spec fn task_acts(self, i: int, action: crate::reader::TaskAction) -> Connection<E> {
        match action {
            crate::reader::TaskAction::Send(bytes) => self.offered(i, bytes@),
            crate::reader::TaskAction::End => self,
        }
    }

    /// The connection with a task in another place.
    pub open spec fn with_task(self, i: int, task: Task) -> Connection<E> {
        Connection {
            admitted: self.admitted.update(i, Admission { task, ..self.admitted[i] }),
            ..self
        }
    }

    /// The connection after an event to a task.
    pub open spec fn after_task(self, i: int, event: TaskEvent) -> Connection<E> {
        let task = self.admitted[i].task;
        self.task_heard(i, event).task_acts(
            i,
            crate::reader::task_action_on(task, event),
        ).with_task(i, crate::reader::next_task(task, event))
    }

    /// The connection after something has happened.
    pub open spec fn after(self, h: Happening<E>) -> Connection<E> {
        match h {
            Happening::ToReader(event) => self.after_reader(event),
            Happening::ToTask { index, event } => self.after_task(index, event),
            Happening::WriterCloses => Connection { writer_closed: true, ..self },
        }
    }

    /// Whether these things can happen one after the other.
    pub open spec fn can_run(self, run: Seq<Happening<E>>) -> bool
        decreases run.len(),
    {
        run.len() == 0 || self.can_run(run.drop_last()) && self.after_run(
            run.drop_last(),
        ).can_happen(run.last())
    }

    /// The connection after these things have happened.
    pub open spec fn after_run(self, run: Seq<Happening<E>>) -> Connection<E>
        decreases run.len(),
    {
        if run.len() == 0 {
            self
        } else {
            self.after_run(run.drop_last()).after(run.last())
        }
    }

    /// The frames that were given to dispatch.
    pub open spec fn admitted_frames(self) -> Seq<Seq<u8>> {
        self.admitted.map_values(|a: Admission| a.frame)
    }

    /// Whether a response was handed over for the `i`th admitted frame.
    pub open spec fn is_answered(self, i: int) -> bool {
        exists|p: int| 0 <= p < self.sent.len() && (#[trigger] self.sent[p]).index == i
    }

    /// The bytes that were handed to the writer.
    pub open spec fn sent_bytes(self) -> Multiset<Seq<u8>> {
        self.sent.map_values(|d: Delivery| d.bytes).to_multiset()
    }

    /// Whether every dispatch has given a response or none, and what was handed
    /// to the writer are exactly those responses: one was handed over for a
    /// frame if and only if its dispatch gave one, and all together they are,
    /// as a multiset, the responses given.
    pub open spec fn is_fully_answered(self) -> bool {
        &&& forall|i: int|
            0 <= i < self.admitted.len() ==> (#[trigger] self.admitted[i]).response is Some && (
            self.is_answered(i) <==> self.admitted[i].response->0 is Some)
        &&& self.sent_bytes() == responses_given(self.admitted)
    }

    /// The result that the reader is bound to return.
    pub open spec fn due_result(self) -> Result<(), E> {
        match self.ending {
            Some(Event::ReadFailed(e)) => Err(e),
            _ => Ok(()),
        }
    }

    /// Whether every frame that was read was given to dispatch, but perhaps
    /// for the last.
    pub open spec fn all_but_the_last_admitted(self) -> bool {
        self.read == self.admitted_frames() || self.read.len() > 0 && self.read.drop_last()
            == self.admitted_frames()
    }

    /// Whether the frames that were given to dispatch are those that the
    /// ending lets one expect: all that were read, unless the reader stopped
    /// with one in its hands.
    pub open spec fn admitted_by_ending(self) -> bool {
        match self.ending {
            Some(Event::EndOfStream) => self.read == self.admitted_frames(),
            Some(Event::ReadFailed(_)) => self.read == self.admitted_frames(),
            Some(Event::SendFailed) => self.read == self.admitted_frames(),
            Some(Event::FrameRead { .. }) => self.read.len() > 0 && self.read.drop_last()
                == self.admitted_frames(),
            Some(Event::WriterClosed) => self.all_but_the_last_admitted(),
            _ => false,
        }
    }

    /// What holds of the reader and its permits at every time.
    pub open spec fn reader_is_sound(self) -> bool {
        &&& 0 <= self.held
        &&& self.held + self.in_flight() <= MAX_INFLIGHT
        &&& self.ending is Some <==> self.reader is Draining || self.reader is Stopped
        &&& self.returned is Some <==> self.reader is Stopped
        &&& match self.reader {
            Reader::Reading => self.held == 0 && self.read == self.admitted_frames(),
            Reader::AwaitingBarrier(frame) => {
                &&& self.held == 0
                &&& self.wanted == MAX_INFLIGHT
                &&& crate::dispatch::must_be_serialized(frame@)
                &&& self.read == self.admitted_frames().push(frame@)
            },
            Reader::RunningInline => self.held == MAX_INFLIGHT && self.admitted.len() > 0
                && self.read == self.admitted_frames(),
            Reader::SendingInline => self.held == MAX_INFLIGHT && self.admitted.len() > 0
                && self.read == self.admitted_frames(),
            Reader::AwaitingPermit(frame) => {
                &&& self.held == 0
                &&& self.wanted == 1
                &&& !crate::dispatch::must_be_serialized(frame@)
                &&& self.read == self.admitted_frames().push(frame@)
            },
            Reader::Draining(result) => {
                &&& self.held == 0
                &&& self.wanted == MAX_INFLIGHT
                &&& result == self.due_result()
                &&& self.admitted_by_ending()
            },
            Reader::Stopped => {
                &&& self.held == MAX_INFLIGHT
                &&& self.returned == Some(self.due_result())
                &&& self.admitted_by_ending()
            },
        }
    }

    /// What holds at every time of the `i`th admitted frame.
    pub open spec fn admission_is_sound(self, i: int) -> bool {
        let a = self.admitted[i];
        let in_hand = self.runs_inline() && i == self.admitted.len() - 1;
        &&& a.inline == crate::dispatch::must_be_serialized(a.frame)
        &&& a.inline ==> a.task is Ended
        &&& in_hand ==> a.inline
        &&& a.delivered ==> self.is_answered(i)
        &&& if a.task is Running || in_hand && self.reader is RunningInline {
            a.response is None && !a.delivered
        } else if a.task is Sending || in_hand {
            a.offer is Some && a.response == Some(a.offer) && !a.delivered
        } else {
            &&& a.response is Some
            &&& a.delivered ==> a.response->0 is Some
            &&& a.response->0 is Some ==> a.delivered || self.writer_closed
        }
    }

    /// What holds of all admitted frames at every time.
    pub open spec fn admissions_are_sound(self) -> bool {
        &&& forall|i: int|
            0 <= i < self.admitted.len() ==> #[trigger] self.admission_is_sound(i)
        &&& forall|i: int, k: int|
            #![trigger self.admitted[i], self.admitted[k]]
            0 <= i < self.admitted.len() && 0 <= k < self.admitted.len()
                && !(self.admitted[i].task is Ended) && self.admitted[k].inline ==> k < i
    }

    /// What holds at every time of what was handed to the writer: each is the
    /// response of its frame, no frame has two, and none passes a barrier.
    pub open spec fn deliveries_are_sound(self) -> bool {
        &&& forall|p: int|
            0 <= p < self.sent.len() ==> {
                let d = #[trigger] self.sent[p];
                &&& 0 <= d.index < self.admitted.len()
                &&& self.admitted[d.index].delivered
                &&& self.admitted[d.index].response == Some(Some(d.bytes))
            }
        &&& forall|p: int, q: int|
            0 <= p < q < self.sent.len() ==> (#[trigger] self.sent[p]).index != (
            #[trigger] self.sent[q]).index
        &&& forall|p: int, q: int, k: int|
            #![trigger self.sent[p], self.sent[q], self.admitted[k]]
            0 <= p < q < self.sent.len() && 0 <= k < self.admitted.len()
                && self.admitted[k].inline && self.sent[p].index >= k ==> self.sent[q].index > k
        &&& self.sent_bytes() == responses_delivered(self.admitted)
    }

    /// What holds of a connection at every time.
    pub open spec fn is_sound(self) -> bool {
        &&& self.reader_is_sound()
        &&& self.admissions_are_sound()
        &&& self.deliveries_are_sound()
    }
}

// Counting.

proof fn tasks_are_counted(admitted: Seq<Admission>)
    ensures
        0 <= tasks_in_flight(admitted),
        tasks_in_flight(admitted) == 0 <==> forall|i: int|
            0 <= i < admitted.len() ==> (#[trigger] admitted[i]).task is Ended,
    decreases admitted.len(),
{
    if admitted.len() > 0 {
        let shorter = admitted.drop_last();
        tasks_are_counted(shorter);
        assert(forall|i: int| 0 <= i < shorter.len() ==> shorter[i] == #[trigger] admitted[i]);
        if tasks_in_flight(shorter) != 0 {
            let i = choose|i: int|
                0 <= i < shorter.len() && !((#[trigger] shorter[i]).task is Ended);
            assert(!(admitted[i].task is Ended));
        }
    }
}

proof fn counts_after_push(admitted: Seq<Admission>, a: Admission)
    requires
        a.response is None,
        !a.delivered,
    ensures
        tasks_in_flight(admitted.push(a)) == tasks_in_flight(admitted) + if a.task is Ended {
            0int
        } else {
            1int
        },
        responses_delivered(admitted.push(a)) == responses_delivered(admitted),
{
    assert(admitted.push(a).drop_last() =~= admitted);
}

proof fn counts_after_update(admitted: Seq<Admission>, i: int, a: Admission)
    requires
        0 <= i < admitted.len(),
        !admitted[i].delivered,
    ensures
        tasks_in_flight(admitted.update(i, a)) == tasks_in_flight(admitted) - (
        if admitted[i].task is Ended {
            0int
        } else {
            1int
        }) + (if a.task is Ended {
            0int
        } else {
            1int
        }),
        responses_delivered(admitted.update(i, a)) == if a.delivered {
            responses_delivered(admitted).insert(a.response->0->0)
        } else {
            responses_delivered(admitted)
        },
    decreases admitted.len(),
{
    let updated = admitted.update(i, a);
    let shorter = admitted.drop_last();
    if i == admitted.len() - 1 {
        assert(updated.drop_last() =~= shorter);
    } else {
        assert(updated.drop_last() =~= shorter.update(i, a));
        counts_after_update(shorter, i, a);
        assert(updated.last() == admitted.last());
        assert(responses_delivered(updated) =~= if a.delivered {
            responses_delivered(admitted).insert(a.response->0->0)
        } else {
            responses_delivered(admitted)
        });
    }
}

proof fn all_given_are_delivered(admitted: Seq<Admission>)
    requires
        forall|i: int|
            0 <= i < admitted.len() ==> (#[trigger] admitted[i]).delivered == (
            admitted[i].response matches Some(Some(_))),
    ensures
        responses_delivered(admitted) == responses_given(admitted),
    decreases admitted.len(),
{
    if admitted.len() > 0 {
        let shorter = admitted.drop_last();
        assert forall|i: int| 0 <= i < shorter.len() implies (#[trigger] shorter[i]).delivered == (
        shorter[i].response matches Some(Some(_))) by {
            assert(shorter[i] == admitted[i]);
        }
        all_given_are_delivered(shorter);
        assert(admitted.last() == admitted[admitted.len() - 1]);
    }
}

// Each thing that can happen keeps a connection sound.

/// The frames of admissions do not change with what becomes of them.
proof fn frames_after_update<E>(c: Connection<E>, d: Connection<E>, i: int, a: Admission)
    requires
        0 <= i < c.admitted.len(),
        d.admitted == c.admitted.update(i, a),
        a.frame == c.admitted[i].frame,
    ensures
        d.admitted_frames() == c.admitted_frames(),
{
    assert(d.admitted_frames() =~= c.admitted_frames());
}

proof fn frames_after_push<E>(c: Connection<E>, d: Connection<E>, a: Admission)
    requires
        d.admitted == c.admitted.push(a),
    ensures
        d.admitted_frames() == c.admitted_frames().push(a.frame),
{
    assert(d.admitted_frames() =~= c.admitted_frames().push(a.frame));
}

/// Admitted frames stay sound when one of them changes.
proof fn admissions_after_update<E>(c: Connection<E>, d: Connection<E>, i: int, a: Admission)
    requires
        c.admissions_are_sound(),
        0 <= i < c.admitted.len(),
        d.admitted == c.admitted.update(i, a),
        a.inline == c.admitted[i].inline,
        c.admitted[i].task is Ended ==> a.task is Ended,
        c.writer_closed ==> d.writer_closed,
        c.sent.len() <= d.sent.len(),
        forall|p: int| 0 <= p < c.sent.len() ==> d.sent[p] == #[trigger] c.sent[p],
        d.reader == c.reader || i == c.admitted.len() - 1,
        d.admission_is_sound(i),
    ensures
        d.admissions_are_sound(),
{
    assert forall|j: int| 0 <= j < d.admitted.len() implies #[trigger] d.admission_is_sound(j) by {
        if j != i {
            assert(c.admission_is_sound(j));
            assert(d.admitted[j] == c.admitted[j]);
            if c.admitted[j].delivered {
                let p = choose|p: int|
                    0 <= p < c.sent.len() && (#[trigger] c.sent[p]).index == j;
                assert(d.sent[p].index == j);
            }
        }
    }
    assert forall|j: int, k: int|
        #![trigger d.admitted[j], d.admitted[k]]
        0 <= j < d.admitted.len() && 0 <= k < d.admitted.len() && !(d.admitted[j].task is Ended)
            && d.admitted[k].inline implies k < j by {
        assert(!(c.admitted[j].task is Ended));
        assert(c.admitted[k].inline);
    }
}

/// Admitted frames stay sound when another is admitted.
proof fn admissions_after_push<E>(c: Connection<E>, d: Connection<E>, a: Admission)
    requires
        c.admissions_are_sound(),
        !c.runs_inline(),
        d.admitted == c.admitted.push(a),
        d.sent == c.sent,
        c.writer_closed == d.writer_closed,
        a.inline ==> a.task is Ended && forall|j: int|
            0 <= j < c.admitted.len() ==> (#[trigger] c.admitted[j]).task is Ended,
        d.admission_is_sound(c.admitted.len() as int),
    ensures
        d.admissions_are_sound(),
{
    let n = c.admitted.len() as int;
    assert forall|j: int| 0 <= j < d.admitted.len() implies #[trigger] d.admission_is_sound(j) by {
        if j < n {
            assert(c.admission_is_sound(j));
            assert(d.admitted[j] == c.admitted[j]);
            if c.admitted[j].delivered {
                let p = choose|p: int|
                    0 <= p < c.sent.len() && (#[trigger] c.sent[p]).index == j;
                assert(d.sent[p].index == j);
            }
        }
    }
    assert forall|j: int, k: int|
        #![trigger d.admitted[j], d.admitted[k]]
        0 <= j < d.admitted.len() && 0 <= k < d.admitted.len() && !(d.admitted[j].task is Ended)
            && d.admitted[k].inline implies k < j by {
        if j < n {
            assert(!(c.admitted[j].task is Ended));
            if k < n {
                assert(c.admitted[k].inline);
            }
        }
    }
}

/// Admitted frames stay sound while only the reader goes on.
proof fn admissions_after_reader_alone<E>(c: Connection<E>, d: Connection<E>)
    requires
        c.admissions_are_sound(),
        d.admitted == c.admitted,
        d.sent == c.sent,
        c.writer_closed ==> d.writer_closed,
        d.reader == c.reader || !c.runs_inline() && !d.runs_inline() || c.reader is SendingInline
            && !d.runs_inline() && d.writer_closed,
    ensures
        d.admissions_are_sound(),
{
    assert forall|j: int| 0 <= j < d.admitted.len() implies #[trigger] d.admission_is_sound(j) by {
        assert(c.admission_is_sound(j));
        if c.admitted[j].delivered {
            let p = choose|p: int| 0 <= p < c.sent.len() && (#[trigger] c.sent[p]).index == j;
            assert(d.sent[p].index == j);
        }
    }
}

/// What was handed over stays sound when a frame changes for which nothing
/// was, nor is.
proof fn deliveries_after_update<E>(c: Connection<E>, d: Connection<E>, i: int, a: Admission)
    requires
        c.deliveries_are_sound(),
        0 <= i < c.admitted.len(),
        !c.admitted[i].delivered,
        d.admitted == c.admitted.update(i, a),
        !a.delivered,
        a.inline == c.admitted[i].inline,
        d.sent == c.sent,
    ensures
        d.deliveries_are_sound(),
{
    counts_after_update(c.admitted, i, a);
    assert forall|p: int, q: int, k: int|
        #![trigger d.sent[p], d.sent[q], d.admitted[k]]
        0 <= p < q < d.sent.len() && 0 <= k < d.admitted.len() && d.admitted[k].inline
            && d.sent[p].index >= k implies d.sent[q].index > k by {
        assert(c.admitted[k].inline);
        assert(c.sent[p] == d.sent[p] && c.sent[q] == d.sent[q]);
    }
}

/// What was handed over stays sound when a frame is admitted.
proof fn deliveries_after_push<E>(c: Connection<E>, d: Connection<E>, a: Admission)
    requires
        c.deliveries_are_sound(),
        d.admitted == c.admitted.push(a),
        a.response is None,
        !a.delivered,
        d.sent == c.sent,
    ensures
        d.deliveries_are_sound(),
{
    counts_after_push(c.admitted, a);
    assert forall|p: int, q: int, k: int|
        #![trigger d.sent[p], d.sent[q], d.admitted[k]]
        0 <= p < q < d.sent.len() && 0 <= k < d.admitted.len() && d.admitted[k].inline
            && d.sent[p].index >= k implies d.sent[q].index > k by {
        assert(c.sent[p] == d.sent[p] && c.sent[q] == d.sent[q]);
        if k < c.admitted.len() {
            assert(c.admitted[k].inline);
        }
    }
}

/// What was handed over stays sound when the response of a frame is that no
/// barrier is behind.
proof fn deliveries_after_delivery<E>(c: Connection<E>, d: Connection<E>, i: int, a: Admission)
    requires
        c.deliveries_are_sound(),
        0 <= i < c.admitted.len(),
        !c.admitted[i].delivered,
        d.admitted == c.admitted.update(i, a),
        a.delivered,
        a.inline == c.admitted[i].inline,
        a.response is Some,
        a.response->0 is Some,
        d.sent == c.sent.push(Delivery { index: i, bytes: a.response->0->0 }),
        forall|k: int|
            0 <= k < c.admitted.len() && (#[trigger] c.admitted[k]).inline ==> k < i || k == i
                && i == c.admitted.len() - 1,
    ensures
        d.deliveries_are_sound(),
{
    broadcast use vstd::seq_lib::group_to_multiset_ensures;

    let n = c.sent.len() as int;
    let bytes = a.response->0->0;
    counts_after_update(c.admitted, i, a);
    assert(d.sent.map_values(|x: Delivery| x.bytes) =~= c.sent.map_values(
        |x: Delivery| x.bytes,
    ).push(bytes));
    assert forall|p: int| 0 <= p < d.sent.len() implies ({
        let x = #[trigger] d.sent[p];
        &&& 0 <= x.index < d.admitted.len()
        &&& d.admitted[x.index].delivered
        &&& d.admitted[x.index].response == Some(Some(x.bytes))
    }) by {
        if p < n {
            assert(d.sent[p] == c.sent[p]);
        }
    }
    assert forall|p: int, q: int| 0 <= p < q < d.sent.len() implies (#[trigger] d.sent[p]).index
        != (#[trigger] d.sent[q]).index by {
        assert(d.sent[p] == c.sent[p]);
        if q < n {
            assert(d.sent[q] == c.sent[q]);
        }
    }
    assert forall|p: int, q: int, k: int|
        #![trigger d.sent[p], d.sent[q], d.admitted[k]]
        0 <= p < q < d.sent.len() && 0 <= k < d.admitted.len() && d.admitted[k].inline
            && d.sent[p].index >= k implies d.sent[q].index > k by {
        assert(c.admitted[k].inline);
        assert(d.sent[p] == c.sent[p]);
        if q < n {
            assert(d.sent[q] == c.sent[q]);
        }
    }
}

/// An event to a task keeps the connection sound.
proof fn task_keeps_soundness<E>(c: Connection<E>, i: int, event: TaskEvent)
    requires
        c.is_sound(),
        c.can_happen(Happening::ToTask { index: i, event }),
    ensures
        c.after_task(i, event).is_sound(),
{
    let d = c.after_task(i, event);
    let before = c.admitted[i];
    assert(c.admission_is_sound(i));
    let a = d.admitted[i];
    assert(d.admitted =~= c.admitted.update(i, a));
    frames_after_update(c, d, i, a);
    counts_after_update(c.admitted, i, a);
    tasks_are_counted(c.admitted);
    match event {
        TaskEvent::Sent => {
            assert(d.sent[c.sent.len() as int].index == i);
            deliveries_after_delivery(c, d, i, a);
        },
        _ => {
            deliveries_after_update(c, d, i, a);
        },
    }
    admissions_after_update(c, d, i, a);
}

/// A grant to the reader keeps the connection sound.
proof fn grant_keeps_soundness<E>(c: Connection<E>)
    requires
        c.is_sound(),
        c.can_happen(Happening::ToReader(Event::Granted)),
    ensures
        c.after_reader(Event::Granted).is_sound(),
{
    let d = c.after_reader(Event::Granted);
    tasks_are_counted(c.admitted);
    match c.reader {
        Reader::Draining(_) => {
            admissions_after_reader_alone(c, d);
        },
        _ => {
            let n = c.admitted.len() as int;
            let a = d.admitted[n];
            assert(d.admitted =~= c.admitted.push(a));
            frames_after_push(c, d, a);
            counts_after_push(c.admitted, a);
            admissions_after_push(c, d, a);
            deliveries_after_push(c, d, a);
        },
    }
}

/// A response to the frame that the reader runs keeps the connection sound.
proof fn response_keeps_soundness<E>(c: Connection<E>, response: Option<Vec<u8>>)
    requires
        c.is_sound(),
        c.can_happen(Happening::ToReader(Event::Response(response))),
    ensures
        c.after_reader(Event::Response(response)).is_sound(),
{
    let d = c.after_reader(Event::Response(response));
    let i = c.admitted.len() - 1;
    assert(c.admission_is_sound(i));
    let a = d.admitted[i];
    assert(d.admitted =~= c.admitted.update(i, a));
    frames_after_update(c, d, i, a);
    counts_after_update(c.admitted, i, a);
    tasks_are_counted(c.admitted);
    deliveries_after_update(c, d, i, a);
    admissions_after_update(c, d, i, a);
}

/// That the response was handed over keeps the connection sound.
proof fn sending_keeps_soundness<E>(c: Connection<E>)
    requires
        c.is_sound(),
        c.can_happen(Happening::ToReader(Event::Sent)),
    ensures
        c.after_reader(Event::Sent).is_sound(),
{
    let d = c.after_reader(Event::Sent);
    let i = c.admitted.len() - 1;
    assert(c.admission_is_sound(i));
    let a = d.admitted[i];
    assert(d.admitted =~= c.admitted.update(i, a));
    frames_after_update(c, d, i, a);
    counts_after_update(c.admitted, i, a);
    tasks_are_counted(c.admitted);
    assert(d.sent[c.sent.len() as int].index == i);
    deliveries_after_delivery(c, d, i, a);
    admissions_after_update(c, d, i, a);
}

/// Whatever can happen keeps a connection sound.
proof fn soundness_is_kept<E>(c: Connection<E>, h: Happening<E>)
    requires
        c.is_sound(),
        c.can_happen(h),
    ensures
        c.after(h).is_sound(),
{
    let d = c.after(h);
    match h {
        Happening::WriterCloses => {
            admissions_after_reader_alone(c, d);
        },
        Happening::ToTask { index, event } => {
            task_keeps_soundness(c, index, event);
        },
        Happening::ToReader(event) => match event {
            Event::Granted => {
                grant_keeps_soundness(c);
            },
            Event::Response(response) => {
                response_keeps_soundness(c, response);
            },
            Event::Sent => {
                sending_keeps_soundness(c);
            },
            _ => {
                admissions_after_reader_alone(c, d);
                tasks_are_counted(c.admitted);
                if event is FrameRead {
                    assert(d.read.drop_last() =~= c.read);
                }
                if c.reader is AwaitingBarrier || c.reader is AwaitingPermit {
                    assert(c.read.drop_last() =~= c.admitted_frames());
                }
            },
        },
    }
}

/// Whatever happens on a connection, it is sound.
pub proof fn law_always_sound<E>(run: Seq<Happening<E>>)
    requires
        Connection::<E>::new().can_run(run),
    ensures
        Connection::<E>::new().after_run(run).is_sound(),
    decreases run.len(),
{
    let c = Connection::<E>::new();
    if run.len() == 0 {
        assert(c.admitted_frames() =~= Seq::empty());
        let bytes = c.sent.map_values(|d: Delivery| d.bytes);
        assert(bytes.to_multiset() =~= Multiset::empty()) by {
            broadcast use vstd::seq_lib::group_to_multiset_ensures;

            assert(forall|b: Seq<u8>| !bytes.contains(b));
        }
    } else {
        law_always_sound(run.drop_last());
        soundness_is_kept(c.after_run(run.drop_last()), run.last());
    }
}

// The laws.

/// Never are more than 64 dispatches in flight.
pub proof fn law_inflight_is_bounded<E>(run: Seq<Happening<E>>)
    requires
        Connection::<E>::new().can_run(run),
    ensures
        0 <= Connection::<E>::new().after_run(run).in_flight() <= 64,
{
    law_always_sound(run);
    tasks_are_counted(Connection::<E>::new().after_run(run).admitted);
}

/// Backpressure: while every permit is held by a dispatch, nothing that can
/// happen admits the frame that waits for one; once a task has ended and the
/// writer is still there, the frame can be admitted.
pub proof fn law_backpressure_at_the_bound<E>(run: Seq<Happening<E>>, h: Happening<E>)
    requires
        Connection::<E>::new().can_run(run),
        Connection::<E>::new().after_run(run).reader is AwaitingPermit,
        Connection::<E>::new().after_run(run).in_flight() == 64,
        Connection::<E>::new().after_run(run).can_happen(h),
    ensures
        ({
            let c = Connection::<E>::new().after_run(run);
            &&& c.after(h).admitted_frames() == c.admitted_frames()
            &&& h matches Happening::ToTask { index, event } ==> (crate::reader::task_action_on(
                c.admitted[index].task,
                event,
            ) is End && !c.writer_closed ==> c.after(h).can_happen(
                Happening::ToReader(Event::Granted),
            ))
        }),
{
    law_always_sound(run);
    let c = Connection::<E>::new().after_run(run);
    only_grants_admit(c, h);
    if let Happening::ToTask { index, event } = h {
        let d = c.after(h);
        assert(c.admission_is_sound(index));
        assert(d.admitted =~= c.admitted.update(index, d.admitted[index]));
        counts_after_update(c.admitted, index, d.admitted[index]);
    }
}

/// No frame is given to dispatch but by a grant to the reader.
proof fn only_grants_admit<E>(c: Connection<E>, h: Happening<E>)
    requires
        c.is_sound(),
        c.can_happen(h),
    ensures
        h != Happening::ToReader(Event::<E>::Granted) || c.reader is Draining ==> {
            &&& c.after(h).admitted_frames() == c.admitted_frames()
            &&& c.after(h).admitted.len() == c.admitted.len()
        },
{
    assert(h != Happening::ToReader(Event::<E>::Granted) || c.reader is Draining ==> c.after(
        h,
    ).admitted_frames() =~= c.admitted_frames());
}

/// Frames of the data path overlap: as long as two permits are free, two such
/// frames that come one after the other are both admitted, though no dispatch
/// ends in between.
pub proof fn law_data_frames_overlap<E>(run: Seq<Happening<E>>, first: Vec<u8>, second: Vec<u8>)
    requires
        Connection::<E>::new().can_run(run),
        Connection::<E>::new().after_run(run).reader is Reading,
        !Connection::<E>::new().after_run(run).writer_closed,
        Connection::<E>::new().after_run(run).in_flight() + 2 <= 64,
        !crate::dispatch::must_be_serialized(first@),
        !crate::dispatch::must_be_serialized(second@),
    ensures
        ({
            let c = Connection::<E>::new().after_run(run);
            let both = seq![
                Happening::ToReader(Event::FrameRead { frame: first, shutting_down: false }),
                Happening::ToReader(Event::Granted),
                Happening::ToReader(Event::FrameRead { frame: second, shutting_down: false }),
                Happening::ToReader(Event::Granted),
            ];
            &&& c.can_run(both)
            &&& c.after_run(both).in_flight() == c.in_flight() + 2
            &&& c.after_run(both).admitted == c.admits(first@, false).admits(
                second@,
                false,
            ).admitted
        }),
{
    law_always_sound(run);
    let c = Connection::<E>::new().after_run(run);
    let h1 = Happening::ToReader(Event::<E>::FrameRead { frame: first, shutting_down: false });
    let h2 = Happening::ToReader(Event::<E>::Granted);
    let h3 = Happening::ToReader(Event::<E>::FrameRead { frame: second, shutting_down: false });
    let one = c.admits(first@, false);
    counts_after_push(c.admitted, one.admitted.last());
    counts_after_push(one.admitted, one.admits(second@, false).admitted.last());
    assert(seq![h1, h2, h3, h2].drop_last() =~= seq![h1, h2, h3]);
    assert(seq![h1, h2, h3].drop_last() =~= seq![h1, h2]);
    assert(seq![h1, h2].drop_last() =~= seq![h1]);
    assert(seq![h1].drop_last() =~= Seq::empty());
    reveal_with_fuel(Connection::can_run, 5);
    reveal_with_fuel(Connection::after_run, 5);
}

/// A frame that must be serialized runs alone: while it runs and until its
/// response is handed over, no dispatch is in flight, and nothing that can
/// happen starts one. It does not start to run while one is.
pub proof fn law_barrier_runs_alone<E>(run: Seq<Happening<E>>, h: Happening<E>)
    requires
        Connection::<E>::new().can_run(run),
        Connection::<E>::new().after_run(run).can_happen(h),
    ensures
        ({
            let c = Connection::<E>::new().after_run(run);
            &&& c.runs_inline() ==> {
                &&& c.in_flight() == 0
                &&& c.after(h).in_flight() == 0
                &&& c.after(h).admitted_frames() == c.admitted_frames()
            }
            &&& c.reader is AwaitingBarrier && c.in_flight() > 0 ==> c.after(h).admitted_frames()
                == c.admitted_frames()
        }),
{
    law_always_sound(run);
    let c = Connection::<E>::new().after_run(run);
    let d = c.after(h);
    only_grants_admit(c, h);
    soundness_is_kept(c, h);
    tasks_are_counted(c.admitted);
    tasks_are_counted(d.admitted);
    if c.runs_inline() {
        assert(forall|i: int|
            0 <= i < d.admitted.len() ==> (#[trigger] d.admitted[i]).task is Ended);
    }
}

/// Exactly the frames that must be serialized are run by the reader itself;
/// all others run in tasks.
pub proof fn law_frames_run_by_their_class<E>(run: Seq<Happening<E>>, i: int)
    requires
        Connection::<E>::new().can_run(run),
        0 <= i < Connection::<E>::new().after_run(run).admitted.len(),
    ensures
        ({
            let a = Connection::<E>::new().after_run(run).admitted[i];
            a.inline == crate::dispatch::must_be_serialized(a.frame)
        }),
{
    law_always_sound(run);
    assert(Connection::<E>::new().after_run(run).admission_is_sound(i));
}

/// Frames are given to dispatch in the order in which they were read, each
/// once. While the reader reads, all that were read have been. None is ever
/// passed over but the one that the reader has in its hands when the writer
/// closes or the server shuts down: once the stream has ended, cleanly or not,
/// all have been given to dispatch.
pub proof fn law_frames_are_admitted_in_order<E>(run: Seq<Happening<E>>)
    requires
        Connection::<E>::new().can_run(run),
    ensures
        ({
            let c = Connection::<E>::new().after_run(run);
            &&& c.all_but_the_last_admitted()
            &&& c.reader is Reading || c.runs_inline() ==> c.read == c.admitted_frames()
            &&& c.ending matches Some(event) ==> {
                &&& event is EndOfStream || event is ReadFailed || event is SendFailed ==> c.read
                    == c.admitted_frames()
                &&& event is FrameRead ==> c.read.drop_last() == c.admitted_frames()
            }
        }),
{
    law_always_sound(run);
    let c = Connection::<E>::new().after_run(run);
    if c.reader is AwaitingBarrier || c.reader is AwaitingPermit {
        assert(c.read.drop_last() =~= c.admitted_frames());
    }
}

/// A closed writer stops admission: once the writer has closed, no further
/// frame is given to dispatch, whatever happens, wherever the reader is.
pub proof fn law_closed_writer_stops_admission<E>(
    run: Seq<Happening<E>>,
    more: Seq<Happening<E>>,
)
    requires
        Connection::<E>::new().can_run(run),
        Connection::<E>::new().after_run(run).writer_closed,
        Connection::<E>::new().after_run(run).can_run(more),
    ensures
        Connection::<E>::new().after_run(run).after_run(more).writer_closed,
        Connection::<E>::new().after_run(run).after_run(more).admitted_frames()
            == Connection::<E>::new().after_run(run).admitted_frames(),
    decreases more.len(),
{
    let c = Connection::<E>::new().after_run(run);
    law_always_sound(run);
    if more.len() > 0 {
        law_closed_writer_stops_admission(run, more.drop_last());
        soundness_is_kept_by_run(c, more.drop_last());
        only_grants_admit(c.after_run(more.drop_last()), more.last());
    }
}

proof fn soundness_is_kept_by_run<E>(c: Connection<E>, run: Seq<Happening<E>>)
    requires
        c.is_sound(),
        c.can_run(run),
    ensures
        c.after_run(run).is_sound(),
    decreases run.len(),
{
    if run.len() > 0 {
        soundness_is_kept_by_run(c, run.drop_last());
        soundness_is_kept(c.after_run(run.drop_last()), run.last());
    }
}

/// The reader returns only once no dispatch is in flight, on every way out;
/// and none starts afterwards.
pub proof fn law_returns_only_when_drained<E>(run: Seq<Happening<E>>, more: Seq<Happening<E>>)
    requires
        Connection::<E>::new().can_run(run),
        Connection::<E>::new().after_run(run).returned is Some,
        Connection::<E>::new().after_run(run).can_run(more),
    ensures
        Connection::<E>::new().after_run(run).in_flight() == 0,
        Connection::<E>::new().after_run(run).after_run(more).in_flight() == 0,
        Connection::<E>::new().after_run(run).after_run(more).reader is Stopped,
    decreases more.len(),
{
    let c = Connection::<E>::new().after_run(run);
    law_always_sound(run);
    tasks_are_counted(c.admitted);
    if more.len() > 0 {
        law_returns_only_when_drained(run, more.drop_last());
        tasks_are_counted(c.after_run(more.drop_last()).admitted);
    }
}

/// A closed writer ends the reading: while the reader watches for it, that the
/// writer has closed is the one thing that happens to the reader next, and it
/// then drains, to return without an error.
pub proof fn law_closed_writer_is_noticed<E>(run: Seq<Happening<E>>, event: Event<E>)
    requires
        Connection::<E>::new().can_run(run),
        Connection::<E>::new().after_run(run).watches_writer(),
        Connection::<E>::new().after_run(run).writer_closed,
    ensures
        ({
            let c = Connection::<E>::new().after_run(run);
            let closed = Happening::ToReader(Event::WriterClosed);
            &&& c.can_happen(closed)
            &&& c.can_happen(Happening::ToReader(event)) ==> event is WriterClosed
            &&& c.after(closed).reader == Reader::<E>::Draining(Ok(()))
        }),
{
}

/// A draining reader returns as soon as no dispatch is in flight, and not
/// before.
pub proof fn law_drain_ends_with_the_last_dispatch<E>(run: Seq<Happening<E>>)
    requires
        Connection::<E>::new().can_run(run),
        Connection::<E>::new().after_run(run).reader is Draining,
    ensures
        ({
            let c = Connection::<E>::new().after_run(run);
            let granted = Happening::ToReader(Event::Granted);
            &&& c.can_happen(granted) <==> c.in_flight() == 0
            &&& c.after(granted).returned is Some
        }),
{
    law_always_sound(run);
    tasks_are_counted(Connection::<E>::new().after_run(run).admitted);
}

/// The reader never waits in vain: where the permits that it waits for cannot
/// be granted, nor a closed writer be noticed, some task is in flight to which
/// something can happen.
pub proof fn law_reader_waits_only_for_tasks<E>(run: Seq<Happening<E>>)
    requires
        Connection::<E>::new().can_run(run),
        ({
            let c = Connection::<E>::new().after_run(run);
            &&& c.reader is AwaitingBarrier || c.reader is AwaitingPermit || c.reader is Draining
            &&& !c.can_happen(Happening::ToReader(Event::Granted))
            &&& !c.can_happen(Happening::ToReader(Event::WriterClosed))
        }),
    ensures
        exists|index: int, event: TaskEvent| #[trigger]
            Connection::<E>::new().after_run(run).can_happen(Happening::ToTask { index, event }),
{
    law_always_sound(run);
    let c = Connection::<E>::new().after_run(run);
    tasks_are_counted(c.admitted);
    let index = choose|i: int|
        0 <= i < c.admitted.len() && !((#[trigger] c.admitted[i]).task is Ended);
    let event = if c.admitted[index].task is Running {
        TaskEvent::Response(None)
    } else if c.writer_closed {
        TaskEvent::SendFailed
    } else {
        TaskEvent::Sent
    };
    assert(c.can_happen(Happening::ToTask { index, event }));
}

/// The reader returns an error exactly if reading a frame failed, and then
/// that error; the end of the stream, a closed writer and a shutdown are no
/// errors.
pub proof fn law_result_is_that_of_the_reading<E>(run: Seq<Happening<E>>)
    requires
        Connection::<E>::new().can_run(run),
        Connection::<E>::new().after_run(run).returned is Some,
    ensures
        Connection::<E>::new().after_run(run).returned == Some(
            match Connection::<E>::new().after_run(run).ending {
                Some(Event::ReadFailed(e)) => Err(e),
                _ => Ok(()),
            },
        ),
{
    law_always_sound(run);
}

/// A frame that is read while the server shuts down is not given to dispatch,
/// nor is any after it: the reader drains, to return without an error.
pub proof fn law_shutdown_admits_nothing<E>(
    run: Seq<Happening<E>>,
    frame: Vec<u8>,
    more: Seq<Happening<E>>,
)
    requires
        ({
            let c = Connection::<E>::new().after_run(run);
            let h = Happening::ToReader(Event::FrameRead { frame, shutting_down: true });
            &&& Connection::<E>::new().can_run(run)
            &&& c.can_happen(h)
            &&& c.after(h).can_run(more)
        }),
    ensures
        ({
            let c = Connection::<E>::new().after_run(run);
            let h = Happening::ToReader(Event::FrameRead { frame, shutting_down: true });
            let d = c.after(h).after_run(more);
            &&& d.admitted_frames() == c.admitted_frames()
            &&& d.reader == Reader::<E>::Draining(Ok(())) || d.reader is Stopped && d.returned
                == Some(Ok::<(), E>(()))
        }),
    decreases more.len(),
{
    let c = Connection::<E>::new().after_run(run);
    let h = Happening::ToReader(Event::FrameRead { frame, shutting_down: true });
    law_always_sound(run);
    soundness_is_kept(c, h);
    if more.len() > 0 {
        law_shutdown_admits_nothing(run, frame, more.drop_last());
        soundness_is_kept_by_run(c.after(h), more.drop_last());
        only_grants_admit(c.after(h).after_run(more.drop_last()), more.last());
    }
}

/// Responses keep to the barriers: those of frames that came before a frame
/// that runs alone are handed over first, then its own, then those of frames
/// that came after it.
pub proof fn law_responses_keep_to_the_barriers<E>(
    run: Seq<Happening<E>>,
    k: int,
    p: int,
    q: int,
)
    requires
        ({
            let c = Connection::<E>::new().after_run(run);
            &&& Connection::<E>::new().can_run(run)
            &&& 0 <= k < c.admitted.len()
            &&& c.admitted[k].inline
            &&& 0 <= p < q < c.sent.len()
        }),
    ensures
        ({
            let c = Connection::<E>::new().after_run(run);
            c.sent[p].index >= k ==> c.sent[q].index > k
        }),
{
    law_always_sound(run);
    let c = Connection::<E>::new().after_run(run);
    assert(c.admitted[k].inline && c.sent[p] == c.sent[p] && c.sent[q] == c.sent[q]);
}

/// Responses are handed over once and unchanged: whatever was handed to the
/// writer is what the dispatch of its frame gave, and no frame has two. A
/// dispatch that gave none has nothing handed over.
pub proof fn law_responses_are_sent_once_and_unchanged<E>(
    run: Seq<Happening<E>>,
    p: int,
    q: int,
)
    requires
        ({
            let c = Connection::<E>::new().after_run(run);
            &&& Connection::<E>::new().can_run(run)
            &&& 0 <= p < c.sent.len()
            &&& 0 <= q < c.sent.len()
        }),
    ensures
        ({
            let c = Connection::<E>::new().after_run(run);
            &&& 0 <= c.sent[p].index < c.admitted.len()
            &&& c.admitted[c.sent[p].index].response == Some(Some(c.sent[p].bytes))
            &&& c.sent[p].index == c.sent[q].index ==> p == q
        }),
{
    law_always_sound(run);
}

/// No response is lost while the writer is there: of a dispatch that has ended
/// it is known whether it gave a response, and one was handed over for it if
/// and only if it did. One that the reader runs itself ends when the reader
/// reads on.
pub proof fn law_no_response_is_lost<E>(run: Seq<Happening<E>>, i: int)
    requires
        ({
            let c = Connection::<E>::new().after_run(run);
            &&& Connection::<E>::new().can_run(run)
            &&& !c.writer_closed
            &&& 0 <= i < c.admitted.len()
            &&& c.admitted[i].task is Ended
            &&& c.runs_inline() ==> i < c.admitted.len() - 1
        }),
    ensures
        ({
            let c = Connection::<E>::new().after_run(run);
            &&& c.admitted[i].response is Some
            &&& c.is_answered(i) <==> c.admitted[i].response->0 is Some
        }),
{
    law_always_sound(run);
    assert(Connection::<E>::new().after_run(run).admission_is_sound(i));
}

/// The frames that were read in a run, in order.
pub open spec fn frames_read<E>(run: Seq<Happening<E>>) -> Seq<Seq<u8>>
    decreases run.len(),
{
    if run.len() == 0 {
        Seq::empty()
    } else {
        match run.last() {
            Happening::ToReader(Event::FrameRead { frame, .. }) => frames_read(
                run.drop_last(),
            ).push(frame@),
            _ => frames_read(run.drop_last()),
        }
    }
}

/// Whether something is no interruption: not the writer's closing, no
/// shutdown.
pub open spec fn is_no_interruption<E>(h: Happening<E>) -> bool {
    match h {
        Happening::WriterCloses => false,
        Happening::ToReader(Event::FrameRead { shutting_down, .. }) => !shutting_down,
        _ => true,
    }
}

/// Whether a frame could not be read.
pub open spec fn is_read_failure<E>(h: Happening<E>) -> bool {
    h matches Happening::ToReader(event) && event is ReadFailed
}

/// Whether nothing interrupts a run.
pub open spec fn is_uninterrupted<E>(run: Seq<Happening<E>>) -> bool {
    forall|i: int| 0 <= i < run.len() ==> is_no_interruption(#[trigger] run[i])
}

/// Whether nothing disturbs a run: nothing interrupts it, and no read fails.
pub open spec fn is_undisturbed<E>(run: Seq<Happening<E>>) -> bool {
    &&& is_uninterrupted(run)
    &&& forall|i: int| 0 <= i < run.len() ==> !is_read_failure(#[trigger] run[i])
}

/// The frames of a run are those that its connection has read.
proof fn frames_of_run<E>(run: Seq<Happening<E>>)
    requires
        Connection::<E>::new().can_run(run),
    ensures
        Connection::<E>::new().after_run(run).read == frames_read(run),
    decreases run.len(),
{
    if run.len() > 0 {
        frames_of_run(run.drop_last());
    }
}

/// Without an interruption only the end of the stream or a failed read ends
/// the reading.
proof fn ending_of_uninterrupted_run<E>(run: Seq<Happening<E>>)
    requires
        Connection::<E>::new().can_run(run),
        is_uninterrupted(run),
    ensures
        ({
            let c = Connection::<E>::new().after_run(run);
            &&& !c.writer_closed
            &&& c.ending matches Some(event) ==> event is EndOfStream || event is ReadFailed
                && exists|i: int| 0 <= i < run.len() && is_read_failure(#[trigger] run[i])
        }),
    decreases run.len(),
{
    if run.len() > 0 {
        let shorter = run.drop_last();
        let before = Connection::<E>::new().after_run(shorter);
        assert forall|i: int| 0 <= i < shorter.len() implies is_no_interruption(
            #[trigger] shorter[i],
        ) by {
            assert(shorter[i] == run[i]);
        }
        ending_of_uninterrupted_run(shorter);
        law_always_sound(shorter);
        assert(is_no_interruption(run[run.len() - 1]));
        if before.ending matches Some(Event::ReadFailed(_)) {
            let i = choose|i: int|
                0 <= i < shorter.len() && is_read_failure(#[trigger] shorter[i]);
            assert(is_read_failure(run[i]));
        }
    }
}

/// A session that nothing interrupts: the writer stays open, the server does
/// not shut down. Once the reader has returned, it has returned an error
/// exactly if reading failed, and then that error. Each frame that was read was
/// given to dispatch once, in order, and nothing else was; each dispatch has
/// given its response, or none, and what was handed to the writer are exactly
/// those responses.
pub proof fn law_uninterrupted_session<E>(run: Seq<Happening<E>>)
    requires
        Connection::<E>::new().can_run(run),
        is_uninterrupted(run),
        Connection::<E>::new().after_run(run).returned is Some,
    ensures
        ({
            let c = Connection::<E>::new().after_run(run);
            &&& c.ending matches Some(event) && (event is EndOfStream || event is ReadFailed)
            &&& c.returned == Some(c.due_result())
            &&& c.admitted_frames() == frames_read(run)
            &&& c.is_fully_answered()
        }),
{
    let c = Connection::<E>::new().after_run(run);
    law_always_sound(run);
    frames_of_run(run);
    ending_of_uninterrupted_run(run);
    tasks_are_counted(c.admitted);
    assert forall|i: int| 0 <= i < c.admitted.len() implies (#[trigger] c.admitted[i]).response
        is Some && (c.is_answered(i) <==> c.admitted[i].response->0 is Some)
        && c.admitted[i].delivered == (c.admitted[i].response->0 is Some) by {
        assert(c.admission_is_sound(i));
        assert(c.admitted[i].task is Ended);
    }
    all_given_are_delivered(c.admitted);
}

/// A session that nothing disturbs: the client sends its frames and closes, the
/// writer stays open, the server does not shut down. Once the reader has
/// returned, it has returned without an error. Each frame that the client sent
/// was given to dispatch once, in order, and nothing else was; each dispatch
/// has given its response, or none, and what was handed to the writer are
/// exactly those responses.
pub proof fn law_undisturbed_session<E>(run: Seq<Happening<E>>)
    requires
        Connection::<E>::new().can_run(run),
        is_undisturbed(run),
        Connection::<E>::new().after_run(run).returned is Some,
    ensures
        ({
            let c = Connection::<E>::new().after_run(run);
            &&& c.returned == Some(Ok::<(), E>(()))
            &&& c.admitted_frames() == frames_read(run)
            &&& c.is_fully_answered()
        }),
{
    law_uninterrupted_session(run);
    ending_of_uninterrupted_run(run);
}

// From the wire to dispatch.

/// What a run leaves unread of a stream that delivers `s` and ends: each frame
/// that the run reads is the next of the stream, the stream ends where the run
/// finds its end, and a read that fails fails as the stream does. `None` for a
/// run that does not read this stream. `fault` gives the transport's error for
/// a frame that cannot be read.
pub open spec fn unread<T, E>(
    run: Seq<Happening<E>>,
    s: Seq<u8>,
    fault: spec_fn(FrameError<T>) -> E,
) -> Option<Seq<u8>>
    decreases run.len(),
{
    if run.len() == 0 {
        Some(s)
    } else {
        match unread(run.drop_last(), s, fault) {
            None => None,
            Some(rest) => match run.last() {
                Happening::ToReader(Event::FrameRead { frame, .. }) => {
                    match crate::frame::frame_of::<T>(rest) {
                        Ok(Some(payload)) => if payload == frame@ {
                            Some(rest.skip(crate::frame::frame_extent(rest)))
                        } else {
                            None
                        },
                        _ => None,
                    }
                },
                Happening::ToReader(Event::EndOfStream) => {
                    match crate::frame::frame_of::<T>(rest) {
                        Ok(None) => Some(rest),
                        _ => None,
                    }
                },
                Happening::ToReader(Event::ReadFailed(failure)) => {
                    match crate::frame::frame_of::<T>(rest) {
                        Err(e) => if failure == fault(e) {
                            Some(rest)
                        } else {
                            None
                        },
                        _ => None,
                    }
                },
                _ => Some(rest),
            },
        }
    }
}

/// Whether a run reads what a stream delivers that holds `s` and ends.
pub open spec fn reads_stream<T, E>(
    run: Seq<Happening<E>>,
    s: Seq<u8>,
    fault: spec_fn(FrameError<T>) -> E,
) -> bool {
    unread(run, s, fault) is Some
}

/// What was read and what the rest of the stream holds are together what the
/// stream holds.
proof fn stream_of_run<T, E>(
    run: Seq<Happening<E>>,
    s: Seq<u8>,
    fault: spec_fn(FrameError<T>) -> E,
)
    requires
        reads_stream(run, s, fault),
    ensures
        ({
            let rest = unread(run, s, fault)->0;
            &&& crate::frame::frames_of::<T>(s).0 == frames_read(run)
                + crate::frame::frames_of::<T>(rest).0
            &&& crate::frame::frames_of::<T>(s).1 == crate::frame::frames_of::<T>(rest).1
        }),
    decreases run.len(),
{
    let rest = unread(run, s, fault)->0;
    if run.len() == 0 {
        assert(frames_read(run) + crate::frame::frames_of::<T>(rest).0
            =~= crate::frame::frames_of::<T>(rest).0);
    } else {
        let before = unread(run.drop_last(), s, fault)->0;
        stream_of_run(run.drop_last(), s, fault);
        if let Happening::ToReader(Event::FrameRead { frame, .. }) = run.last() {
            assert(crate::frame::frames_of::<T>(before).0 == seq![frame@]
                + crate::frame::frames_of::<T>(rest).0);
            assert(frames_read(run.drop_last()) + (seq![frame@] + crate::frame::frames_of::<T>(
                rest,
            ).0) =~= frames_read(run) + crate::frame::frames_of::<T>(rest).0);
        }
    }
}

/// Where the reading ended, the rest of the stream holds no frame, and says
/// how the reading ended.
proof fn stream_at_the_ending<T, E>(
    run: Seq<Happening<E>>,
    s: Seq<u8>,
    fault: spec_fn(FrameError<T>) -> E,
)
    requires
        Connection::<E>::new().can_run(run),
        reads_stream(run, s, fault),
    ensures
        match Connection::<E>::new().after_run(run).ending {
            Some(Event::EndOfStream) => crate::frame::frame_of::<T>(
                unread(run, s, fault)->0,
            ) == Ok::<Option<Seq<u8>>, FrameError<T>>(None),
            Some(Event::ReadFailed(failure)) => crate::frame::frame_of::<T>(
                unread(run, s, fault)->0,
            ) matches Err(e) && failure == fault(e),
            _ => true,
        },
    decreases run.len(),
{
    if run.len() > 0 {
        stream_at_the_ending(run.drop_last(), s, fault);
        law_always_sound(run.drop_last());
    }
}

/// Nothing is given to dispatch but what the client sent: whatever happens, the
/// frames that were are the first of those that the stream holds, in order.
pub proof fn law_dispatches_follow_the_stream<T, E>(
    run: Seq<Happening<E>>,
    s: Seq<u8>,
    fault: spec_fn(FrameError<T>) -> E,
)
    requires
        Connection::<E>::new().can_run(run),
        reads_stream(run, s, fault),
    ensures
        Connection::<E>::new().after_run(run).admitted_frames().is_prefix_of(
            crate::frame::frames_of::<T>(s).0,
        ),
{
    let c = Connection::<E>::new().after_run(run);
    frames_of_run(run);
    stream_of_run(run, s, fault);
    law_frames_are_admitted_in_order(run);
    assert(c.admitted_frames().is_prefix_of(c.read));
}

/// A session that nothing interrupts serves its stream, whatever bytes that
/// holds: once the reader has returned, exactly the frames of the stream were
/// given to dispatch, in order, all are answered, and the reader returned an
/// error exactly if the stream did not end cleanly after them.
pub proof fn law_session_serves_its_stream<T, E>(
    run: Seq<Happening<E>>,
    s: Seq<u8>,
    fault: spec_fn(FrameError<T>) -> E,
)
    requires
        Connection::<E>::new().can_run(run),
        is_uninterrupted(run),
        reads_stream(run, s, fault),
        Connection::<E>::new().after_run(run).returned is Some,
    ensures
        ({
            let c = Connection::<E>::new().after_run(run);
            &&& c.admitted_frames() == crate::frame::frames_of::<T>(s).0
            &&& c.returned == Some(
                match crate::frame::frames_of::<T>(s).1 {
                    Ok(()) => Ok(()),
                    Err(e) => Err(fault(e)),
                },
            )
            &&& c.is_fully_answered()
        }),
{
    law_uninterrupted_session(run);
    stream_of_run(run, s, fault);
    stream_at_the_ending(run, s, fault);
    assert(frames_read(run) + Seq::<Seq<u8>>::empty() =~= frames_read(run));
}

/// A session that nothing interrupts serves its client: the client sends these
/// payloads, each in a frame, and closes; once the reader has returned, exactly
/// they were given to dispatch, each once and in order, all are answered, and
/// the reader returned without an error.
pub proof fn law_session_serves_its_client<T, E>(
    run: Seq<Happening<E>>,
    payloads: Seq<Seq<u8>>,
    fault: spec_fn(FrameError<T>) -> E,
)
    requires
        forall|i: int|
            0 <= i < payloads.len() ==> (#[trigger] payloads[i]).len()
                <= crate::frame::MAX_FRAME_LEN,
        Connection::<E>::new().can_run(run),
        is_uninterrupted(run),
        reads_stream(run, crate::frame::framed_all(payloads), fault),
        Connection::<E>::new().after_run(run).returned is Some,
    ensures
        ({
            let c = Connection::<E>::new().after_run(run);
            &&& c.admitted_frames() == payloads
            &&& c.returned == Some(Ok::<(), E>(()))
            &&& c.is_fully_answered()
        }),
{
    law_session_serves_its_stream(run, crate::frame::framed_all(payloads), fault);
    crate::frame::law_framed_payloads_read_back::<T>(payloads, Seq::empty());
}

// What comes is dealt with.

/// Nothing that can come from outside finds the reader or a task unprepared: a
/// reader that reads expects every frame, the end of the stream and every
/// failure; one that runs a frame expects every response; one that sends
/// expects to have sent, or to have failed. Likewise a task.
pub proof fn law_whatever_comes_is_expected<E>(
    run: Seq<Happening<E>>,
    frame: Vec<u8>,
    shutting_down: bool,
    failure: E,
    response: Option<Vec<u8>>,
    index: int,
)
    requires
        Connection::<E>::new().can_run(run),
    ensures
        ({
            let c = Connection::<E>::new().after_run(run);
            let reader = |event: Event<E>| c.can_happen(Happening::ToReader(event));
            let task = |event: TaskEvent| c.can_happen(Happening::ToTask { index, event });
            &&& c.reader is Reading && !c.writer_closed ==> {
                &&& reader(Event::FrameRead { frame, shutting_down })
                &&& reader(Event::EndOfStream)
                &&& reader(Event::ReadFailed(failure))
            }
            &&& c.reader is RunningInline ==> reader(Event::Response(response))
            &&& c.reader is SendingInline && !c.writer_closed ==> reader(Event::Sent)
            &&& c.reader is SendingInline && c.writer_closed ==> reader(Event::SendFailed)
            &&& 0 <= index < c.admitted.len() ==> {
                &&& c.admitted[index].task is Running ==> task(TaskEvent::Response(response))
                &&& c.admitted[index].task is Sending && !c.writer_closed ==> task(TaskEvent::Sent)
                &&& c.admitted[index].task is Sending && c.writer_closed ==> task(
                    TaskEvent::SendFailed,
                )
            }
        }),
{
}

/// A frame that waits is given to dispatch as soon as it may be: one of the
/// data path as soon as fewer than 64 dispatches are in flight, in a task; one
/// that must be serialized as soon as none is, by the reader itself.
pub proof fn law_waiting_frames_are_admitted<E>(run: Seq<Happening<E>>)
    requires
        Connection::<E>::new().can_run(run),
        !Connection::<E>::new().after_run(run).writer_closed,
    ensures
        ({
            let c = Connection::<E>::new().after_run(run);
            let granted = Happening::ToReader(Event::Granted);
            &&& c.reader matches Reader::AwaitingPermit(frame) ==> {
                &&& c.can_happen(granted) <==> c.in_flight() < 64
                &&& c.after(granted).admitted == c.admits(frame@, false).admitted
                &&& c.after(granted).reader is Reading
            }
            &&& c.reader matches Reader::AwaitingBarrier(frame) ==> {
                &&& c.can_happen(granted) <==> c.in_flight() == 0
                &&& c.after(granted).admitted == c.admits(frame@, true).admitted
                &&& c.after(granted).reader is RunningInline
            }
        }),
{
    law_always_sound(run);
    tasks_are_counted(Connection::<E>::new().after_run(run).admitted);
}

/// A frame that was read waits for its turn: for one permit if it is of the
/// data path, for all of them if it must be serialized.
pub proof fn law_read_frames_wait_for_their_turn<E>(run: Seq<Happening<E>>, frame: Vec<u8>)
    requires
        ({
            let c = Connection::<E>::new().after_run(run);
            &&& Connection::<E>::new().can_run(run)
            &&& c.reader is Reading
            &&& !c.writer_closed
        }),
    ensures
        ({
            let c = Connection::<E>::new().after_run(run);
            let h = Happening::ToReader(Event::FrameRead { frame, shutting_down: false });
            c.after(h).reader == if crate::dispatch::must_be_serialized(frame@) {
                Reader::<E>::AwaitingBarrier(frame)
            } else {
                Reader::<E>::AwaitingPermit(frame)
            }
        }),
{
}

/// A reader that has run a frame reads on, once its response is handed over, or
/// at once if there is none; and it gives all permits back.
pub proof fn law_reader_reads_on_behind_a_barrier<E>(run: Seq<Happening<E>>, event: Event<E>)
    requires
        ({
            let c = Connection::<E>::new().after_run(run);
            &&& Connection::<E>::new().can_run(run)
            &&& c.can_happen(Happening::ToReader(event))
            &&& c.reader is RunningInline && event == Event::<E>::Response(None) || c.reader
                is SendingInline && event is Sent
        }),
    ensures
        ({
            let d = Connection::<E>::new().after_run(run).after(Happening::ToReader(event));
            d.reader is Reading && d.free() == 64
        }),
{
    let c = Connection::<E>::new().after_run(run);
    law_always_sound(run);
    law_barrier_runs_alone(run, Happening::ToReader(event));
}

/// A connection begins with its reader about to read, and a task with its
/// frame about to be dispatched.
pub proof fn law_beginnings<E>(r: (Reader<E>, crate::reader::Action<E>), task: Task)
    requires
        call_ensures(Reader::<E>::start, (), r),
        call_ensures(Task::start, (), task),
    ensures
        r.0 == Connection::<E>::new().reader,
        r.0 is Reading,
        r.1 is ReadFrame,
        task is Running,
{
}

/// What the reader and a task do is what the connection is modelled by.
pub proof fn law_steps_are_those_of_the_connection<E>(
    c: Connection<E>,
    event: Event<E>,
    expected: bool,
    r: (Reader<E>, crate::reader::Action<E>),
    index: int,
    task_event: TaskEvent,
    task_expected: bool,
    t: (Task, crate::reader::TaskAction),
)
    requires
        call_ensures(Reader::<E>::expects, (&c.reader, &event), expected),
        call_ensures(Reader::<E>::step, (c.reader, event), r),
        0 <= index < c.admitted.len(),
        call_ensures(Task::expects, (c.admitted[index].task, &task_event), task_expected),
        call_ensures(Task::step, (c.admitted[index].task, task_event), t),
    ensures
        c.can_happen(Happening::ToReader(event)) ==> expected,
        c.after(Happening::ToReader(event)).reader == r.0,
        c.after(Happening::ToReader(event)).admitted == c.heard(event).acts(r.1).admitted,
        c.after(Happening::ToReader(event)).sent == c.heard(event).acts(r.1).sent,
        c.after(Happening::ToReader(event)).held == c.heard(event).acts(r.1).held,
        c.after(Happening::ToReader(event)).wanted == c.heard(event).acts(r.1).wanted,
        c.after(Happening::ToReader(event)).returned == c.heard(event).acts(r.1).returned,
        c.can_happen(Happening::ToTask { index, event: task_event }) ==> task_expected,
        c.after(Happening::ToTask { index, event: task_event }) == c.task_heard(
            index,
            task_event,
        ).task_acts(index, t.1).with_task(index, t.0),
{
}

/// What ends the reading ends it at once: at the end of the stream, at a
/// failure to read, at a response that cannot be handed over and in a shutdown
/// the reader drains, to return the failure or no error.
pub proof fn law_endings_drain_at_once<E>(run: Seq<Happening<E>>, event: Event<E>)
    requires
        Connection::<E>::new().can_run(run),
        Connection::<E>::new().after_run(run).can_happen(Happening::ToReader(event)),
    ensures
        ({
            let d = Connection::<E>::new().after_run(run).after(Happening::ToReader(event));
            &&& event is EndOfStream || event is SendFailed || event is WriterClosed ==> d.reader
                == Reader::<E>::Draining(Ok(()))
            &&& event matches Event::FrameRead { shutting_down, .. } ==> shutting_down ==> d.reader
                == Reader::<E>::Draining(Ok(()))
            &&& event matches Event::ReadFailed(e) ==> d.reader == Reader::<E>::Draining(Err(e))
        }),
{
}

/// A task sends the response of its frame, as it is, if there is one, and
/// otherwise ends; and it ends once it has sent, or could not. With its end its
/// permit is free.
pub proof fn law_tasks_send_and_end<E>(run: Seq<Happening<E>>, index: int, event: TaskEvent)
    requires
        Connection::<E>::new().can_run(run),
        Connection::<E>::new().after_run(run).can_happen(Happening::ToTask { index, event }),
    ensures
        ({
            let c = Connection::<E>::new().after_run(run);
            let d = c.after(Happening::ToTask { index, event });
            match event {
                TaskEvent::Response(Some(bytes)) => {
                    &&& d.admitted[index].task is Sending
                    &&& d.admitted[index].offer == Some(bytes@)
                    &&& d.in_flight() == c.in_flight()
                },
                _ => d.admitted[index].task is Ended && d.in_flight() == c.in_flight() - 1,
            }
        }),
{
    let c = Connection::<E>::new().after_run(run);
    let d = c.after(Happening::ToTask { index, event });
    law_always_sound(run);
    assert(c.admission_is_sound(index));
    assert(d.admitted =~= c.admitted.update(index, d.admitted[index]));
    counts_after_update(c.admitted, index, d.admitted[index]);
}

/// What the reader has to do fits where it is. It reads, and so watches for the
/// writer's closing, exactly where it is reading; it waits for a permit, or
/// for all, and watches the writer, exactly where a frame awaits them; it waits
/// for all without watching exactly where it drains. A frame is spawned exactly
/// once it was granted its permit.
pub proof fn law_actions_fit_their_places<E>(
    reader: Reader<E>,
    event: Event<E>,
    r: (Reader<E>, crate::reader::Action<E>),
)
    requires
        call_ensures(Reader::<E>::expects, (&reader, &event), true),
        call_ensures(Reader::<E>::step, (reader, event), r),
    ensures
        r.1 is SpawnAndRead <==> reader is AwaitingPermit && event is Granted,
        r.1 is ReadFrame <==> r.0 is Reading && !(reader is AwaitingPermit),
        r.1 is SpawnAndRead ==> r.0 is Reading,
        r.0 is AwaitingPermit || r.0 is AwaitingBarrier <==> r.1 is Acquire,
        r.0 is AwaitingPermit ==> r.1 == (crate::reader::Action::<E>::Acquire { permits: 1 }),
        r.0 is AwaitingBarrier ==> r.1 == (crate::reader::Action::<E>::Acquire { permits: 64 }),
        r.0 is RunningInline <==> r.1 is RunInline,
        r.0 is SendingInline <==> r.1 is Send,
        r.0 is Draining <==> r.1 is Drain,
        r.0 is Draining ==> r.1 == (crate::reader::Action::<E>::Drain { permits: 64 }),
        r.0 is Stopped <==> r.1 is Return,
{
}

/// A task sends exactly where it is sending, and gives its permit back exactly
/// where it has ended.
pub proof fn law_task_actions_fit_their_places(
    task: Task,
    event: TaskEvent,
    r: (Task, crate::reader::TaskAction),
)
    requires
        call_ensures(Task::expects, (task, &event), true),
        call_ensures(Task::step, (task, event), r),
    ensures
        r.0 is Sending <==> r.1 is Send,
        r.0 is Ended <==> r.1 is End,
{
}

} // verus!
