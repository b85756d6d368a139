//! The enumeration of sockets and processors, one answer at a time.
//!
//! The management library is asked in a fixed pattern. First for the number
//! of sockets, then for that many socket handles. Then, socket by socket, for
//! the socket's name, the number of its processors and that many processor
//! handles. Then, processor by processor, for the processor's class tag and,
//! for an AMD GPU or an AMD CPU, for its identifiers.
//!
//! An [`Enumerator`] holds what is known so far and the one [`Request`] whose
//! answer it waits for. The caller performs the request and hands the
//! [`Reply`] to [`Enumerator::advance`], which decides what comes next: a
//! further request, the finished list of sockets, or the failure that ends
//! the enumeration. Nothing is retried and no partial list is ever returned.

use vstd::prelude::*;

use crate::discovery::lemma_bdf_round_trip;
use crate::discovery::socket_views;
use crate::discovery::ProcessorClass;
use crate::discovery::ProcessorType;
use crate::discovery::ProcessorView;
use crate::discovery::SocketInfo;
use crate::discovery::SocketView;
use crate::discovery::BDF;
use crate::discovery::processor_views;
use crate::error::result_from_amd_smi_status_t;
use crate::error::status_kind;
use crate::error::AmdSmiError;
use crate::error::STATUS_SUCCESS;
use crate::handles::ProcessorHandle;
use crate::handles::SocketHandle;
use crate::util::buffer_text;
use crate::util::string_from_buffer;

verus! {

/// The capacity in bytes of the buffer for a socket's or a CPU's name.
pub const NAME_CAPACITY: usize = 256;

/// The capacity in bytes of the buffer for a GPU's unique identifier.
pub const UUID_CAPACITY: usize = 38;

/// What is asked about one socket.
#[derive(Debug, Clone, Copy, PartialEq, Eq, Structural)]
pub enum SocketQuery {
    /// The socket's name, into a buffer of [`NAME_CAPACITY`] bytes.
    Name,
    /// The number of the socket's processors.
    ProcessorCount,
    /// The handles of the socket's processors, into a buffer for `count`
    /// handles.
    ProcessorHandles { count: u32 },
}

/// What is asked about one processor.
#[derive(Debug, Clone, Copy, PartialEq, Eq, Structural)]
pub enum ProcessorQuery {
    /// The tag of the processor's class.
    Tag,
    /// The packed bus address of a GPU.
    GpuBdf,
    /// The unique identifier of a GPU, into a buffer of [`UUID_CAPACITY`]
    /// bytes.
    GpuUuid,
    /// The device identifier of a GPU.
    GpuId,
    /// The revision of a GPU.
    GpuRevision,
    /// The vendor's name of a GPU, into a buffer of the greatest length that
    /// the management library defines for a string.
    GpuVendorName,
    /// The subsystem identifier of a GPU.
    GpuSubsystemId,
    /// The subsystem's name of a GPU, into a buffer of the greatest length
    /// that the management library defines for a string.
    GpuSubsystemName,
    /// The name of a CPU, into a buffer of [`NAME_CAPACITY`] bytes.
    CpuName,
}

/// One question to the management library.
#[allow(inconsistent_fields)]
#[derive(Debug, Clone, Copy, PartialEq, Eq, Structural)]
pub enum Request {
    /// The number of sockets.
    SocketCount,
    /// The handles of the sockets, into a buffer for `count` handles.
    SocketHandles { count: u32 },
    /// A question about the socket `socket`.
    Socket { socket: SocketHandle, query: SocketQuery },
    /// A question about the processor `processor`.
    Processor { processor: ProcessorHandle, query: ProcessorQuery },
}

/// What the management library wrote in answer to a request.
#[allow(inconsistent_fields)]
#[derive(Debug, Clone, PartialEq, Eq)]
pub enum Payload {
    /// Nothing, as after a failure.
    Nothing,
    /// A number of sockets or of processors.
    Count(u32),
    /// The buffer of socket handles after the call, and the number of
    /// handles that the call reported.
    Sockets { count: u32, handles: Vec<SocketHandle> },
    /// The buffer of processor handles after the call, and the number of
    /// handles that the call reported.
    Processors { count: u32, handles: Vec<ProcessorHandle> },
    /// The tag of a processor's class.
    Tag(u32),
    /// A packed bus address.
    Address(u64),
    /// A device, revision or subsystem identifier.
    Identifier(u16),
    /// The bytes of a text buffer after the call.
    Text(Vec<u8>),
}

/// The answer to a request: the status code of the call and what it wrote.
#[derive(Debug, Clone, PartialEq, Eq)]
pub struct Reply {
    pub status: u32,
    pub payload: Payload,
}

impl Reply {
    /// The failure that the status code stands for, if it is one.
    pub open spec fn failure(self) -> Option<AmdSmiError> {
        if self.status != STATUS_SUCCESS {
            Some(status_kind(self.status))
        } else {
            None
        }
    }

    /// The answer read as a number of sockets or processors.
    pub open spec fn as_count(self) -> Result<u32, AmdSmiError> {
        match (self.failure(), self.payload) {
            (Some(e), _) => Err(e),
            (None, Payload::Count(n)) => Ok(n),
            _ => Err(AmdSmiError::AmdsmiStatusUnexpectedData),
        }
    }

    /// The answer read as the handles of `asked` sockets: of unexpected size
    /// where the call reported another number than `asked`, or the buffer
    /// holds another number of handles.
    pub open spec fn as_sockets(self, asked: u32) -> Result<Seq<SocketHandle>, AmdSmiError> {
        match (self.failure(), self.payload) {
            (Some(e), _) => Err(e),
            (None, Payload::Sockets { count, handles }) => if count == asked && handles@.len()
                == asked {
                Ok(handles@)
            } else {
                Err(AmdSmiError::AmdsmiStatusUnexpectedSize)
            },
            _ => Err(AmdSmiError::AmdsmiStatusUnexpectedData),
        }
    }

    /// The answer read as the handles of `asked` processors: of unexpected
    /// size where the call reported another number than `asked`, or the
    /// buffer holds another number of handles.
    pub open spec fn as_processors(self, asked: u32) -> Result<Seq<ProcessorHandle>, AmdSmiError> {
        match (self.failure(), self.payload) {
            (Some(e), _) => Err(e),
            (None, Payload::Processors { count, handles }) => if count == asked && handles@.len()
                == asked {
                Ok(handles@)
            } else {
                Err(AmdSmiError::AmdsmiStatusUnexpectedSize)
            },
            _ => Err(AmdSmiError::AmdsmiStatusUnexpectedData),
        }
    }

    /// The answer read as the tag of a class.
    pub open spec fn as_tag(self) -> Result<u32, AmdSmiError> {
        match (self.failure(), self.payload) {
            (Some(e), _) => Err(e),
            (None, Payload::Tag(tag)) => Ok(tag),
            _ => Err(AmdSmiError::AmdsmiStatusUnexpectedData),
        }
    }

    /// The answer read as a bus address.
    pub open spec fn as_address(self) -> Result<BDF, AmdSmiError> {
        match (self.failure(), self.payload) {
            (Some(e), _) => Err(e),
            (None, Payload::Address(raw)) => Ok(BDF::decode(raw)),
            _ => Err(AmdSmiError::AmdsmiStatusUnexpectedData),
        }
    }

    /// The answer read as an identifier.
    pub open spec fn as_identifier(self) -> Result<u16, AmdSmiError> {
        match (self.failure(), self.payload) {
            (Some(e), _) => Err(e),
            (None, Payload::Identifier(value)) => Ok(value),
            _ => Err(AmdSmiError::AmdsmiStatusUnexpectedData),
        }
    }

    /// The answer read as the text of a buffer.
    pub open spec fn as_text(self) -> Result<Seq<char>, AmdSmiError> {
        match (self.failure(), self.payload) {
            (Some(e), _) => Err(e),
            (None, Payload::Text(bytes)) => buffer_text(bytes@),
            _ => Err(AmdSmiError::AmdsmiStatusUnexpectedData),
        }
    }

    /// Reads the answer as a number of sockets or processors.
    pub fn count(&self) -> (r: Result<u32, AmdSmiError>)
        ensures
            r == self.as_count(),
    {
        match result_from_amd_smi_status_t(self.status) {
            Err(e) => Err(e),
            Ok(()) => match &self.payload {
                Payload::Count(n) => Ok(*n),
                _ => Err(AmdSmiError::AmdsmiStatusUnexpectedData),
            },
        }
    }

    /// Reads the answer as the handles of `asked` sockets.
    pub fn into_sockets(self, asked: u32) -> (r: Result<Vec<SocketHandle>, AmdSmiError>)
        ensures
            r matches Ok(handles) ==> self.as_sockets(asked) == Ok::<
                Seq<SocketHandle>,
                AmdSmiError,
            >(handles@),
            r matches Err(e) ==> self.as_sockets(asked) == Err::<Seq<SocketHandle>, AmdSmiError>(e),
    {
        match result_from_amd_smi_status_t(self.status) {
            Err(e) => Err(e),
            Ok(()) => match self.payload {
                Payload::Sockets { count, handles } => {
                    if count == asked && handles.len() == asked as usize {
                        Ok(handles)
                    } else {
                        Err(AmdSmiError::AmdsmiStatusUnexpectedSize)
                    }
                },
                _ => Err(AmdSmiError::AmdsmiStatusUnexpectedData),
            },
        }
    }

    /// Reads the answer as the handles of `asked` processors.
    pub fn into_processors(self, asked: u32) -> (r: Result<Vec<ProcessorHandle>, AmdSmiError>)
        ensures
            r matches Ok(handles) ==> self.as_processors(asked) == Ok::<
                Seq<ProcessorHandle>,
                AmdSmiError,
            >(handles@),
            r matches Err(e) ==> self.as_processors(asked) == Err::<
                Seq<ProcessorHandle>,
                AmdSmiError,
            >(e),
    {
        match result_from_amd_smi_status_t(self.status) {
            Err(e) => Err(e),
            Ok(()) => match self.payload {
                Payload::Processors { count, handles } => {
                    if count == asked && handles.len() == asked as usize {
                        Ok(handles)
                    } else {
                        Err(AmdSmiError::AmdsmiStatusUnexpectedSize)
                    }
                },
                _ => Err(AmdSmiError::AmdsmiStatusUnexpectedData),
            },
        }
    }

    /// Reads the answer as the tag of a class.
    pub fn tag(&self) -> (r: Result<u32, AmdSmiError>)
        ensures
            r == self.as_tag(),
    {
        match result_from_amd_smi_status_t(self.status) {
            Err(e) => Err(e),
            Ok(()) => match &self.payload {
                Payload::Tag(tag) => Ok(*tag),
                _ => Err(AmdSmiError::AmdsmiStatusUnexpectedData),
            },
        }
    }

    /// Reads the answer as a bus address.
    pub fn address(&self) -> (r: Result<BDF, AmdSmiError>)
        ensures
            r == self.as_address(),
            r matches Ok(bdf) ==> bdf.in_range(),
    {
        match result_from_amd_smi_status_t(self.status) {
            Err(e) => Err(e),
            Ok(()) => match &self.payload {
                Payload::Address(raw) => Ok(BDF::from_raw(*raw)),
                _ => Err(AmdSmiError::AmdsmiStatusUnexpectedData),
            },
        }
    }

    /// Reads the answer as an identifier.
    pub fn identifier(&self) -> (r: Result<u16, AmdSmiError>)
        ensures
            r == self.as_identifier(),
    {
        match result_from_amd_smi_status_t(self.status) {
            Err(e) => Err(e),
            Ok(()) => match &self.payload {
                Payload::Identifier(value) => Ok(*value),
                _ => Err(AmdSmiError::AmdsmiStatusUnexpectedData),
            },
        }
    }

    /// Reads the answer as the text of a buffer.
    pub fn text(&self) -> (r: Result<String, AmdSmiError>)
        ensures
            r matches Ok(text) ==> self.as_text() == Ok::<Seq<char>, AmdSmiError>(text@),
            r matches Err(e) ==> self.as_text() == Err::<Seq<char>, AmdSmiError>(e),
    {
        match result_from_amd_smi_status_t(self.status) {
            Err(e) => Err(e),
            Ok(()) => match &self.payload {
                Payload::Text(bytes) => string_from_buffer(bytes.as_slice()),
                _ => Err(AmdSmiError::AmdsmiStatusUnexpectedData),
            },
        }
    }
}

/// The state of an enumeration as contracts speak of it.
pub ghost struct EnumeratorView {
    /// The request whose answer is awaited.
    pub awaiting: Request,
    /// The handles of all sockets, once they are known.
    pub sockets: Seq<SocketHandle>,
    /// The sockets that are complete, in the order of their handles.
    pub finished: Seq<SocketView>,
    /// The name of the socket at work.
    pub name: Seq<char>,
    /// The handles of the processors of the socket at work.
    pub processors: Seq<ProcessorHandle>,
    /// The processors of the socket at work that are complete, in the order
    /// of their handles.
    pub classified: Seq<ProcessorView>,
    /// The identifiers read so far of the GPU at work.
    pub bdf: BDF,
    pub uuid: Seq<char>,
    pub id: u16,
    pub revision: u16,
    pub vendor_name: Seq<char>,
    pub subsystem_id: u16,
}

/// The outcome of one step as contracts speak of it.
pub ghost enum StepView {
    /// The enumeration goes on in this state, with its request.
    Ask(EnumeratorView),
    /// The enumeration is complete, with these sockets.
    Done(Seq<SocketView>),
    /// The enumeration failed.
    Failed(AmdSmiError),
}

impl EnumeratorView {
    /// The state in which an enumeration starts: nothing is known, and the
    /// number of sockets is asked for.
    pub open spec fn start() -> EnumeratorView {
        EnumeratorView {
            awaiting: Request::SocketCount,
            sockets: Seq::empty(),
            finished: Seq::empty(),
            name: Seq::empty(),
            processors: Seq::empty(),
            classified: Seq::empty(),
            bdf: BDF::decode(0),
            uuid: Seq::empty(),
            id: 0,
            revision: 0,
            vendor_name: Seq::empty(),
            subsystem_id: 0,
        }
    }

    /// Whether all that was gathered is valid: every bus address fits its
    /// fields.
    pub open spec fn gathered_valid(self) -> bool {
        &&& forall|i: int| 0 <= i < self.finished.len() ==> (#[trigger] self.finished[i]).valid()
        &&& forall|i: int|
            0 <= i < self.classified.len() ==> (#[trigger] self.classified[i]).valid()
        &&& self.bdf.in_range()
    }

    /// Whether the state is one that an enumeration can be in.
    ///
    /// Fewer sockets are complete than there are handles while a socket is at
    /// work, and the socket asked about is the next in order. The same holds
    /// of the processors of that socket while one of them is at work.
    pub open spec fn wf(self) -> bool {
        &&& self.gathered_valid()
        &&& match self.awaiting {
            Request::SocketCount => self.finished.len() == 0 && self.classified.len() == 0,
            Request::SocketHandles { .. } => self.finished.len() == 0 && self.classified.len()
                == 0,
            Request::Socket { socket, .. } => {
                &&& self.finished.len() < self.sockets.len()
                &&& socket == self.sockets[self.finished.len() as int]
                &&& self.classified.len() == 0
            },
            Request::Processor { processor, .. } => {
                &&& self.finished.len() < self.sockets.len()
                &&& self.classified.len() < self.processors.len()
                &&& processor == self.processors[self.classified.len() as int]
            },
        }
    }

    /// The step that goes on with the request `awaiting`.
    pub open spec fn ask(self, awaiting: Request) -> StepView {
        StepView::Ask(EnumeratorView { awaiting, ..self })
    }

    /// The step after a socket is complete, or after the socket handles
    /// came: the next socket in order is asked for its name, and when none is
    /// left the enumeration is done.
    pub open spec fn next_socket(self) -> StepView {
        if self.finished.len() < self.sockets.len() {
            self.ask(
                Request::Socket {
                    socket: self.sockets[self.finished.len() as int],
                    query: SocketQuery::Name,
                },
            )
        } else {
            StepView::Done(self.finished)
        }
    }

    /// The step after a processor is complete, or after the processor
    /// handles came: the next processor in order is asked for its tag, and
    /// when none is left the socket is complete.
    pub open spec fn next_processor(self) -> StepView {
        if self.classified.len() < self.processors.len() {
            self.ask(
                Request::Processor {
                    processor: self.processors[self.classified.len() as int],
                    query: ProcessorQuery::Tag,
                },
            )
        } else {
            EnumeratorView {
                finished: self.finished.push(
                    SocketView { name: self.name, processors: self.classified },
                ),
                name: Seq::empty(),
                classified: Seq::empty(),
                ..self
            }.next_socket()
        }
    }

    /// The step that completes the processor at work as `processor`.
    pub open spec fn classified_as(self, processor: ProcessorView) -> StepView {
        EnumeratorView { classified: self.classified.push(processor), ..self }.next_processor()
    }

    /// The step on the answer `reply` about the socket `socket`.
    pub open spec fn socket_step(
        self,
        socket: SocketHandle,
        query: SocketQuery,
        reply: Reply,
    ) -> StepView {
        match query {
            SocketQuery::Name => match reply.as_text() {
                Ok(text) => EnumeratorView { name: text, ..self }.ask(
                    Request::Socket { socket, query: SocketQuery::ProcessorCount },
                ),
                Err(e) => StepView::Failed(e),
            },
            SocketQuery::ProcessorCount => match reply.as_count() {
                Ok(n) => self.ask(
                    Request::Socket { socket, query: SocketQuery::ProcessorHandles { count: n } },
                ),
                Err(e) => StepView::Failed(e),
            },
            SocketQuery::ProcessorHandles { count } => match reply.as_processors(count) {
                Ok(handles) => EnumeratorView { processors: handles, ..self }.next_processor(),
                Err(e) => StepView::Failed(e),
            },
        }
    }

    /// The step on the class tag `tag`: a GPU and a CPU of AMD are asked for
    /// their identifiers, a processor of another class is complete, and a tag
    /// that names no class is unexpected data.
    pub open spec fn tag_step(self, processor: ProcessorHandle, tag: u32) -> StepView {
        match ProcessorClass::classify(tag) {
            Ok(ProcessorClass::AmdGpu) => self.ask(
                Request::Processor { processor, query: ProcessorQuery::GpuBdf },
            ),
            Ok(ProcessorClass::AmdCpu) => self.ask(
                Request::Processor { processor, query: ProcessorQuery::CpuName },
            ),
            Ok(class) => self.classified_as(ProcessorView::bare(class)),
            Err(e) => StepView::Failed(e),
        }
    }

    /// The GPU that the identifiers read so far and the subsystem's name
    /// `subsystem_name` describe.
    pub open spec fn gpu(self, subsystem_name: Seq<char>) -> ProcessorView {
        ProcessorView::AmdGpu {
            bdf: self.bdf,
            uuid: self.uuid,
            id: self.id,
            revision: self.revision,
            vendor_name: self.vendor_name,
            subsystem_id: self.subsystem_id,
            subsystem_name,
        }
    }

    /// The step on the answer `reply` about the processor `processor`.
    pub open spec fn processor_step(
        self,
        processor: ProcessorHandle,
        query: ProcessorQuery,
        reply: Reply,
    ) -> StepView {
        match query {
            ProcessorQuery::Tag => match reply.as_tag() {
                Ok(tag) => self.tag_step(processor, tag),
                Err(e) => StepView::Failed(e),
            },
            ProcessorQuery::GpuBdf => match reply.as_address() {
                Ok(bdf) => EnumeratorView { bdf, ..self }.ask(
                    Request::Processor { processor, query: ProcessorQuery::GpuUuid },
                ),
                Err(e) => StepView::Failed(e),
            },
            ProcessorQuery::GpuUuid => match reply.as_text() {
                Ok(text) => EnumeratorView { uuid: text, ..self }.ask(
                    Request::Processor { processor, query: ProcessorQuery::GpuId },
                ),
                Err(e) => StepView::Failed(e),
            },
            ProcessorQuery::GpuId => match reply.as_identifier() {
                Ok(value) => EnumeratorView { id: value, ..self }.ask(
                    Request::Processor { processor, query: ProcessorQuery::GpuRevision },
                ),
                Err(e) => StepView::Failed(e),
            },
            ProcessorQuery::GpuRevision => match reply.as_identifier() {
                Ok(value) => EnumeratorView { revision: value, ..self }.ask(
                    Request::Processor { processor, query: ProcessorQuery::GpuVendorName },
                ),
                Err(e) => StepView::Failed(e),
            },
            ProcessorQuery::GpuVendorName => match reply.as_text() {
                Ok(text) => EnumeratorView { vendor_name: text, ..self }.ask(
                    Request::Processor { processor, query: ProcessorQuery::GpuSubsystemId },
                ),
                Err(e) => StepView::Failed(e),
            },
            ProcessorQuery::GpuSubsystemId => match reply.as_identifier() {
                Ok(value) => EnumeratorView { subsystem_id: value, ..self }.ask(
                    Request::Processor { processor, query: ProcessorQuery::GpuSubsystemName },
                ),
                Err(e) => StepView::Failed(e),
            },
            ProcessorQuery::GpuSubsystemName => match reply.as_text() {
                Ok(text) => EnumeratorView {
                    uuid: Seq::empty(),
                    vendor_name: Seq::empty(),
                    ..self
                }.classified_as(self.gpu(text)),
                Err(e) => StepView::Failed(e),
            },
            ProcessorQuery::CpuName => match reply.as_text() {
                Ok(text) => self.classified_as(ProcessorView::AmdCpu { name: text }),
                Err(e) => StepView::Failed(e),
            },
        }
    }

    /// The step on the answer `reply` to the awaited request.
    ///
    /// A status code other than success ends the enumeration with the
    /// failure of its kind, whatever was written. An answer of another shape
    /// than the request asks for is unexpected data, and so is a text that
    /// is not UTF-8. A buffer of handles whose reported number, or whose
    /// length, is not the number that was asked for is of unexpected size.
    pub open spec fn step(self, reply: Reply) -> StepView {
        match self.awaiting {
            Request::SocketCount => match reply.as_count() {
                Ok(n) => self.ask(Request::SocketHandles { count: n }),
                Err(e) => StepView::Failed(e),
            },
            Request::SocketHandles { count } => match reply.as_sockets(count) {
                Ok(handles) => EnumeratorView { sockets: handles, ..self }.next_socket(),
                Err(e) => StepView::Failed(e),
            },
            Request::Socket { socket, query } => self.socket_step(socket, query, reply),
            Request::Processor { processor, query } => self.processor_step(
                processor,
                query,
                reply,
            ),
        }
    }
}

/// What an enumeration has gathered.
struct Gathered {
    sockets: Vec<SocketHandle>,
    finished: Vec<SocketInfo>,
    name: String,
    processors: Vec<ProcessorHandle>,
    classified: Vec<ProcessorType>,
    bdf: BDF,
    uuid: String,
    id: u16,
    revision: u16,
    vendor_name: String,
    subsystem_id: u16,
}

impl Gathered {
    /// The state that holds this and awaits `awaiting`.
    spec fn awaiting(self, awaiting: Request) -> EnumeratorView {
        EnumeratorView {
            awaiting,
            sockets: self.sockets@,
            finished: socket_views(self.finished@),
            name: self.name@,
            processors: self.processors@,
            classified: processor_views(self.classified@),
            bdf: self.bdf,
            uuid: self.uuid@,
            id: self.id,
            revision: self.revision,
            vendor_name: self.vendor_name@,
            subsystem_id: self.subsystem_id,
        }
    }
}

/// An enumeration under way: what is known so far, and the request whose
/// answer is awaited.
pub struct Enumerator {
    awaiting: Request,
    gathered: Gathered,
}

/// The outcome of one step of an enumeration.
pub enum Step {
    /// The enumeration goes on: perform the request of this enumerator and
    /// hand it the answer.
    Ask(Enumerator),
    /// The enumeration is complete: the sockets, in the order of discovery.
    Done(Vec<SocketInfo>),
    /// The enumeration failed.
    Failed(AmdSmiError),
}

impl View for Enumerator {
    type V = EnumeratorView;

    closed spec fn view(&self) -> EnumeratorView {
        self.gathered.awaiting(self.awaiting)
    }
}

impl View for Step {
    type V = StepView;

    open spec fn view(&self) -> StepView {
        match self {
            Step::Ask(next) => StepView::Ask(next@),
            Step::Done(sockets) => StepView::Done(socket_views(sockets@)),
            Step::Failed(e) => StepView::Failed(*e),
        }
    }
}

/// Goes on with the request `awaiting`.
fn ask(awaiting: Request, gathered: Gathered) -> (step: Step)
    requires
        gathered.awaiting(awaiting).wf(),
    ensures
        step@ == StepView::Ask(gathered.awaiting(awaiting)),
        step matches Step::Ask(next) && next@.wf(),
{
    Step::Ask(Enumerator { awaiting, gathered })
}

/// Turns to the next socket in order, or ends the enumeration.
fn next_socket(Ghost(awaiting): Ghost<Request>, gathered: Gathered) -> (step: Step)
    requires
        gathered.awaiting(awaiting).gathered_valid(),
        gathered.finished@.len() <= gathered.sockets@.len(),
        gathered.classified@.len() == 0,
    ensures
        step@ == gathered.awaiting(awaiting).next_socket(),
        step matches Step::Ask(next) ==> next@.wf(),
{
    let done = gathered.finished.len();
    if done < gathered.sockets.len() {
        let socket = gathered.sockets[done];
        ask(Request::Socket { socket, query: SocketQuery::Name }, gathered)
    } else {
        Step::Done(gathered.finished)
    }
}

/// Turns to the next processor in order, or completes the socket at work.
fn next_processor(Ghost(awaiting): Ghost<Request>, gathered: Gathered) -> (step: Step)
    requires
        gathered.awaiting(awaiting).gathered_valid(),
        gathered.finished@.len() < gathered.sockets@.len(),
        gathered.classified@.len() <= gathered.processors@.len(),
    ensures
        step@ == gathered.awaiting(awaiting).next_processor(),
        step matches Step::Ask(next) ==> next@.wf(),
{
    let done = gathered.classified.len();
    if done < gathered.processors.len() {
        let processor = gathered.processors[done];
        ask(Request::Processor { processor, query: ProcessorQuery::Tag }, gathered)
    } else {
        let ghost before = gathered.awaiting(awaiting);
        let Gathered {
            sockets,
            mut finished,
            name,
            processors,
            classified,
            bdf,
            uuid,
            id,
            revision,
            vendor_name,
            subsystem_id,
        } = gathered;
        let socket = SocketInfo { name, processors: classified };
        finished.push(socket);
        let gathered = Gathered {
            sockets,
            finished,
            name: String::new(),
            processors,
            classified: Vec::new(),
            bdf,
            uuid,
            id,
            revision,
            vendor_name,
            subsystem_id,
        };
        proof {
            let pushed = before.finished.push(
                SocketView { name: before.name, processors: before.classified },
            );
            assert(socket_views(gathered.finished@) =~= pushed);
            assert(processor_views(gathered.classified@) =~= Seq::<ProcessorView>::empty());
            assert(pushed.last().valid());
        }
        next_socket(Ghost(awaiting), gathered)
    }
}

/// Completes the processor at work as `processor`.
fn classified_as(
    Ghost(awaiting): Ghost<Request>,
    gathered: Gathered,
    processor: ProcessorType,
) -> (step: Step)
    requires
        gathered.awaiting(awaiting).gathered_valid(),
        processor@.valid(),
        gathered.finished@.len() < gathered.sockets@.len(),
        gathered.classified@.len() < gathered.processors@.len(),
    ensures
        step@ == gathered.awaiting(awaiting).classified_as(processor@),
        step matches Step::Ask(next) ==> next@.wf(),
{
    let ghost before = gathered.awaiting(awaiting);
    let mut gathered = gathered;
    gathered.classified.push(processor);
    proof {
        assert(processor_views(gathered.classified@) =~= before.classified.push(processor@));
    }
    next_processor(Ghost(awaiting), gathered)
}

impl Enumerator {
    #[verifier::type_invariant]
    spec fn inv(self) -> bool {
        self@.wf()
    }

    /// An enumeration at its start: it awaits the number of sockets.
    pub(crate) fn new() -> (enumerator: Enumerator)
        ensures
            enumerator@ == EnumeratorView::start(),
            enumerator@.wf(),
    {
        let gathered = Gathered {
            sockets: Vec::new(),
            finished: Vec::new(),
            name: String::new(),
            processors: Vec::new(),
            classified: Vec::new(),
            bdf: BDF::from_raw(0),
            uuid: String::new(),
            id: 0,
            revision: 0,
            vendor_name: String::new(),
            subsystem_id: 0,
        };
        proof {
            assert(socket_views(gathered.finished@) =~= Seq::<SocketView>::empty());
            assert(processor_views(gathered.classified@) =~= Seq::<ProcessorView>::empty());
        }
        Enumerator { awaiting: Request::SocketCount, gathered }
    }

    /// The request whose answer this enumeration awaits.
    pub fn request(&self) -> (request: Request)
        ensures
            request == self@.awaiting,
            self@.wf(),
    {
        proof {
            use_type_invariant(self);
        }
        self.awaiting
    }

    /// Takes the answer to the awaited request and decides how the
    /// enumeration goes on.
    pub fn advance(self, reply: Reply) -> (step: Step)
        ensures
            step@ == self@.step(reply),
            step matches Step::Ask(next) ==> next@.wf(),
    {
        proof {
            use_type_invariant(&self);
        }
        let Enumerator { awaiting, gathered } = self;
        match awaiting {
            Request::SocketCount => match reply.count() {
                Ok(n) => ask(Request::SocketHandles { count: n }, gathered),
                Err(e) => Step::Failed(e),
            },
            Request::SocketHandles { count } => match reply.into_sockets(count) {
                Ok(handles) => next_socket(
                    Ghost(awaiting),
                    Gathered { sockets: handles, ..gathered },
                ),
                Err(e) => Step::Failed(e),
            },
            Request::Socket { socket, query } => socket_info(
                Ghost(awaiting),
                gathered,
                socket,
                query,
                reply,
            ),
            Request::Processor { processor, query } => match query {
                ProcessorQuery::Tag => processor_info(
                    Ghost(awaiting),
                    gathered,
                    processor,
                    reply,
                ),
                ProcessorQuery::CpuName => cpu_info(Ghost(awaiting), gathered, processor, reply),
                _ => gpu_info(Ghost(awaiting), gathered, processor, query, reply),
            },
        }
    }
}

/// Takes the answer about a socket: its name, the number of its processors,
/// then their handles.
fn socket_info(
    Ghost(awaiting): Ghost<Request>,
    gathered: Gathered,
    socket: SocketHandle,
    query: SocketQuery,
    reply: Reply,
) -> (step: Step)
    requires
        gathered.awaiting(awaiting).wf(),
        awaiting == (Request::Socket { socket, query }),
    ensures
        step@ == gathered.awaiting(awaiting).socket_step(socket, query, reply),
        step matches Step::Ask(next) ==> next@.wf(),
{
    match query {
        SocketQuery::Name => match reply.text() {
            Ok(text) => ask(
                Request::Socket { socket, query: SocketQuery::ProcessorCount },
                Gathered { name: text, ..gathered },
            ),
            Err(e) => Step::Failed(e),
        },
        SocketQuery::ProcessorCount => match reply.count() {
            Ok(n) => ask(
                Request::Socket { socket, query: SocketQuery::ProcessorHandles { count: n } },
                gathered,
            ),
            Err(e) => Step::Failed(e),
        },
        SocketQuery::ProcessorHandles { count } => match reply.into_processors(count) {
            Ok(handles) => next_processor(
                Ghost(awaiting),
                Gathered { processors: handles, ..gathered },
            ),
            Err(e) => Step::Failed(e),
        },
    }
}

/// Takes the class tag of a processor: a GPU and a CPU of AMD are asked for
/// their identifiers, a processor of another class is complete.
fn processor_info(
    Ghost(awaiting): Ghost<Request>,
    gathered: Gathered,
    processor: ProcessorHandle,
    reply: Reply,
) -> (step: Step)
    requires
        gathered.awaiting(awaiting).wf(),
        awaiting == (Request::Processor { processor, query: ProcessorQuery::Tag }),
    ensures
        step@ == gathered.awaiting(awaiting).processor_step(processor, ProcessorQuery::Tag, reply),
        step matches Step::Ask(next) ==> next@.wf(),
{
    let tag = match reply.tag() {
        Ok(tag) => tag,
        Err(e) => {
            return Step::Failed(e);
        },
    };
    let class = match ProcessorClass::from_tag(tag) {
        Ok(class) => class,
        Err(e) => {
            return Step::Failed(e);
        },
    };
    match class {
        ProcessorClass::AmdGpu => ask(
            Request::Processor { processor, query: ProcessorQuery::GpuBdf },
            gathered,
        ),
        ProcessorClass::AmdCpu => ask(
            Request::Processor { processor, query: ProcessorQuery::CpuName },
            gathered,
        ),
        ProcessorClass::Unknown => classified_as(Ghost(awaiting), gathered, ProcessorType::Unknown),
        ProcessorClass::NonAmdGpu => classified_as(
            Ghost(awaiting),
            gathered,
            ProcessorType::NonAmdGpu,
        ),
        ProcessorClass::NonAmdCpu => classified_as(
            Ghost(awaiting),
            gathered,
            ProcessorType::NonAmdCpu,
        ),
        ProcessorClass::AmdCpuCore => classified_as(
            Ghost(awaiting),
            gathered,
            ProcessorType::AmdCpuCore,
        ),
        ProcessorClass::AmdApu => classified_as(Ghost(awaiting), gathered, ProcessorType::AmdApu),
    }
}

/// Takes the answer about a GPU: its bus address, unique identifier, device
/// identifier, revision, vendor's name, subsystem identifier and subsystem's
/// name, in this order. With the last of them the GPU is complete.
fn gpu_info(
    Ghost(awaiting): Ghost<Request>,
    gathered: Gathered,
    processor: ProcessorHandle,
    query: ProcessorQuery,
    reply: Reply,
) -> (step: Step)
    requires
        gathered.awaiting(awaiting).wf(),
        awaiting == (Request::Processor { processor, query }),
        query != ProcessorQuery::Tag,
        query != ProcessorQuery::CpuName,
    ensures
        step@ == gathered.awaiting(awaiting).processor_step(processor, query, reply),
        step matches Step::Ask(next) ==> next@.wf(),
{
    match query {
        ProcessorQuery::GpuBdf => match reply.address() {
            Ok(bdf) => ask(
                Request::Processor { processor, query: ProcessorQuery::GpuUuid },
                Gathered { bdf, ..gathered },
            ),
            Err(e) => Step::Failed(e),
        },
        ProcessorQuery::GpuUuid => match reply.text() {
            Ok(text) => ask(
                Request::Processor { processor, query: ProcessorQuery::GpuId },
                Gathered { uuid: text, ..gathered },
            ),
            Err(e) => Step::Failed(e),
        },
        ProcessorQuery::GpuId => match reply.identifier() {
            Ok(value) => ask(
                Request::Processor { processor, query: ProcessorQuery::GpuRevision },
                Gathered { id: value, ..gathered },
            ),
            Err(e) => Step::Failed(e),
        },
        ProcessorQuery::GpuRevision => match reply.identifier() {
            Ok(value) => ask(
                Request::Processor { processor, query: ProcessorQuery::GpuVendorName },
                Gathered { revision: value, ..gathered },
            ),
            Err(e) => Step::Failed(e),
        },
        ProcessorQuery::GpuVendorName => match reply.text() {
            Ok(text) => ask(
                Request::Processor { processor, query: ProcessorQuery::GpuSubsystemId },
                Gathered { vendor_name: text, ..gathered },
            ),
            Err(e) => Step::Failed(e),
        },
        ProcessorQuery::GpuSubsystemId => match reply.identifier() {
            Ok(value) => ask(
                Request::Processor { processor, query: ProcessorQuery::GpuSubsystemName },
                Gathered { subsystem_id: value, ..gathered },
            ),
            Err(e) => Step::Failed(e),
        },
        _ => match reply.text() {
            Ok(text) => {
                let Gathered {
                    sockets,
                    finished,
                    name,
                    processors,
                    classified,
                    bdf,
                    uuid,
                    id,
                    revision,
                    vendor_name,
                    subsystem_id,
                } = gathered;
                let gpu = ProcessorType::AmdGpu {
                    bdf,
                    uuid,
                    id,
                    revision,
                    vendor_name,
                    subsystem_id,
                    subsystem_name: text,
                };
                let gathered = Gathered {
                    sockets,
                    finished,
                    name,
                    processors,
                    classified,
                    bdf,
                    uuid: String::new(),
                    id,
                    revision,
                    vendor_name: String::new(),
                    subsystem_id,
                };
                classified_as(Ghost(awaiting), gathered, gpu)
            },
            Err(e) => Step::Failed(e),
        },
    }
}

/// Takes the name of a CPU, with which the CPU is complete.
fn cpu_info(
    Ghost(awaiting): Ghost<Request>,
    gathered: Gathered,
    processor: ProcessorHandle,
    reply: Reply,
) -> (step: Step)
    requires
        gathered.awaiting(awaiting).wf(),
        awaiting == (Request::Processor { processor, query: ProcessorQuery::CpuName }),
    ensures
        step@ == gathered.awaiting(awaiting).processor_step(
            processor,
            ProcessorQuery::CpuName,
            reply,
        ),
        step matches Step::Ask(next) ==> next@.wf(),
{
    match reply.text() {
        Ok(text) => classified_as(Ghost(awaiting), gathered, ProcessorType::AmdCpu { name: text }),
        Err(e) => Step::Failed(e),
    }
}

/// Every step keeps the state one that an enumeration can be in, and an
/// enumeration that is done has a socket for each handle: no partial list is
/// returned, and every bus address in the list fits its fields.
pub proof fn lemma_step_wf(s: EnumeratorView, reply: Reply)
    requires
        s.wf(),
    ensures
        s.step(reply) matches StepView::Ask(next) ==> next.wf(),
        s.step(reply) matches StepView::Done(sockets) ==> {
            &&& forall|i: int| 0 <= i < sockets.len() ==> (#[trigger] sockets[i]).valid()
            &&& match s.awaiting {
                Request::SocketCount => false,
                Request::SocketHandles { count } => sockets.len() == 0 && count == 0,
                _ => sockets.len() == s.sockets.len(),
            }
        },
{
    match s.awaiting {
        Request::SocketCount => {},
        Request::SocketHandles { count } => {},
        Request::Socket { socket, query } => {
            lemma_socket_step_wf(s, socket, query, reply);
        },
        Request::Processor { processor, query } => {
            lemma_processor_step_wf(s, processor, query, reply);
        },
    }
}

/// What holds after the socket at work is complete.
proof fn lemma_next_processor_wf(u: EnumeratorView)
    requires
        u.gathered_valid(),
        u.finished.len() < u.sockets.len(),
        u.classified.len() <= u.processors.len(),
    ensures
        u.next_processor() matches StepView::Ask(next) ==> next.wf(),
        u.next_processor() matches StepView::Done(sockets) ==> {
            &&& forall|i: int| 0 <= i < sockets.len() ==> (#[trigger] sockets[i]).valid()
            &&& sockets.len() == u.sockets.len()
        },
{
    if u.classified.len() >= u.processors.len() {
        let socket = SocketView { name: u.name, processors: u.classified };
        assert(socket.valid());
        let pushed = u.finished.push(socket);
        assert forall|i: int| 0 <= i < pushed.len() implies (#[trigger] pushed[i]).valid() by {
            if i < u.finished.len() {
                assert(pushed[i] == u.finished[i]);
            }
        }
    }
}

/// What holds after the processor at work is complete as `processor`.
proof fn lemma_classified_as_wf(u: EnumeratorView, processor: ProcessorView)
    requires
        u.gathered_valid(),
        processor.valid(),
        u.finished.len() < u.sockets.len(),
        u.classified.len() < u.processors.len(),
    ensures
        u.classified_as(processor) matches StepView::Ask(next) ==> next.wf(),
        u.classified_as(processor) matches StepView::Done(sockets) ==> {
            &&& forall|i: int| 0 <= i < sockets.len() ==> (#[trigger] sockets[i]).valid()
            &&& sockets.len() == u.sockets.len()
        },
{
    let pushed = u.classified.push(processor);
    assert forall|i: int| 0 <= i < pushed.len() implies (#[trigger] pushed[i]).valid() by {
        if i < u.classified.len() {
            assert(pushed[i] == u.classified[i]);
        }
    }
    lemma_next_processor_wf(EnumeratorView { classified: pushed, ..u });
}

proof fn lemma_socket_step_wf(
    s: EnumeratorView,
    socket: SocketHandle,
    query: SocketQuery,
    reply: Reply,
)
    requires
        s.wf(),
        s.awaiting == (Request::Socket { socket, query }),
    ensures
        s.socket_step(socket, query, reply) matches StepView::Ask(next) ==> next.wf(),
        s.socket_step(socket, query, reply) matches StepView::Done(sockets) ==> {
            &&& forall|i: int| 0 <= i < sockets.len() ==> (#[trigger] sockets[i]).valid()
            &&& sockets.len() == s.sockets.len()
        },
{
    match query {
        SocketQuery::ProcessorHandles { count } => {
            if let Ok(handles) = reply.as_processors(count) {
                lemma_next_processor_wf(EnumeratorView { processors: handles, ..s });
            }
        },
        _ => {},
    }
}

proof fn lemma_processor_step_wf(
    s: EnumeratorView,
    processor: ProcessorHandle,
    query: ProcessorQuery,
    reply: Reply,
)
    requires
        s.wf(),
        s.awaiting == (Request::Processor { processor, query }),
    ensures
        s.processor_step(processor, query, reply) matches StepView::Ask(next) ==> next.wf(),
        s.processor_step(processor, query, reply) matches StepView::Done(sockets) ==> {
            &&& forall|i: int| 0 <= i < sockets.len() ==> (#[trigger] sockets[i]).valid()
            &&& sockets.len() == s.sockets.len()
        },
{
    match query {
        ProcessorQuery::Tag => {
            if let Ok(tag) = reply.as_tag() {
                if let Ok(class) = ProcessorClass::classify(tag) {
                    if class != ProcessorClass::AmdGpu && class != ProcessorClass::AmdCpu {
                        lemma_classified_as_wf(s, ProcessorView::bare(class));
                    }
                }
            }
        },
        ProcessorQuery::GpuBdf => {
            if let Payload::Address(raw) = reply.payload {
                lemma_bdf_round_trip(raw);
            }
        },
        ProcessorQuery::GpuSubsystemName => {
            if let Ok(text) = reply.as_text() {
                lemma_classified_as_wf(
                    EnumeratorView { uuid: Seq::empty(), vendor_name: Seq::empty(), ..s },
                    s.gpu(text),
                );
            }
        },
        ProcessorQuery::CpuName => {
            if let Ok(text) = reply.as_text() {
                lemma_classified_as_wf(s, ProcessorView::AmdCpu { name: text });
            }
        },
        _ => {},
    }
}

} // verus!
