//! What an enumeration computes, stated against a model of the management
//! library.
//!
//! A [`Host`] answers each request in one fixed way. What such a host
//! describes is a list of sockets, or the first failure on the way through
//! it: [`Host::enumeration`] says which, without any state. The enumerator
//! reaches exactly that, whatever the host: [`lemma_enumeration`]. And
//! against answers that do not fit together it still comes to an end:
//! [`lemma_terminates`].

use vstd::prelude::*;

use crate::discovery::lemma_bdf_round_trip;
use crate::discovery::ProcessorClass;
use crate::discovery::ProcessorView;
use crate::discovery::SocketView;
use crate::enumerator::lemma_step_wf;
use crate::enumerator::EnumeratorView;
use crate::enumerator::Payload;
use crate::enumerator::ProcessorQuery;
use crate::enumerator::Reply;
use crate::enumerator::Request;
use crate::enumerator::SocketQuery;
use crate::enumerator::StepView;
use crate::error::AmdSmiError;
use crate::handles::ProcessorHandle;
use crate::handles::SocketHandle;

verus! {

/// A management library that answers each request in one fixed way.
pub ghost struct Host {
    pub answer: spec_fn(Request) -> Reply,
}

impl Host {
    /// The answer to `request`.
    pub open spec fn reply(self, request: Request) -> Reply {
        (self.answer)(request)
    }

    /// The answer to `query` about the processor `processor`.
    pub open spec fn about(self, processor: ProcessorHandle, query: ProcessorQuery) -> Reply {
        self.reply(Request::Processor { processor, query })
    }

    /// The GPU that the host describes under `processor`, or the first
    /// failure among its seven answers.
    pub open spec fn gpu(self, processor: ProcessorHandle) -> Result<ProcessorView, AmdSmiError> {
        match self.about(processor, ProcessorQuery::GpuBdf).as_address() {
            Err(e) => Err(e),
            Ok(bdf) => match self.about(processor, ProcessorQuery::GpuUuid).as_text() {
                Err(e) => Err(e),
                Ok(uuid) => match self.about(processor, ProcessorQuery::GpuId).as_identifier() {
                    Err(e) => Err(e),
                    Ok(id) => match self.about(
                        processor,
                        ProcessorQuery::GpuRevision,
                    ).as_identifier() {
                        Err(e) => Err(e),
                        Ok(revision) => match self.about(
                            processor,
                            ProcessorQuery::GpuVendorName,
                        ).as_text() {
                            Err(e) => Err(e),
                            Ok(vendor_name) => match self.about(
                                processor,
                                ProcessorQuery::GpuSubsystemId,
                            ).as_identifier() {
                                Err(e) => Err(e),
                                Ok(subsystem_id) => match self.about(
                                    processor,
                                    ProcessorQuery::GpuSubsystemName,
                                ).as_text() {
                                    Err(e) => Err(e),
                                    Ok(subsystem_name) => Ok(
                                        ProcessorView::AmdGpu {
                                            bdf,
                                            uuid,
                                            id,
                                            revision,
                                            vendor_name,
                                            subsystem_id,
                                            subsystem_name,
                                        },
                                    ),
                                },
                            },
                        },
                    },
                },
            },
        }
    }

    /// The class that the host gives the processor `processor`.
    pub open spec fn class(self, processor: ProcessorHandle) -> Result<
        ProcessorClass,
        AmdSmiError,
    > {
        match self.about(processor, ProcessorQuery::Tag).as_tag() {
            Err(e) => Err(e),
            Ok(tag) => ProcessorClass::classify(tag),
        }
    }

    /// The processor that the host describes under `processor`.
    pub open spec fn processor(self, processor: ProcessorHandle) -> Result<
        ProcessorView,
        AmdSmiError,
    > {
        match self.class(processor) {
            Err(e) => Err(e),
            Ok(ProcessorClass::AmdGpu) => self.gpu(processor),
            Ok(ProcessorClass::AmdCpu) => match self.about(
                processor,
                ProcessorQuery::CpuName,
            ).as_text() {
                Err(e) => Err(e),
                Ok(name) => Ok(ProcessorView::AmdCpu { name }),
            },
            Ok(class) => Ok(ProcessorView::bare(class)),
        }
    }

    /// The processors that the host describes under `handles`, in their
    /// order, or the failure of the first of them that fails.
    pub open spec fn processors(self, handles: Seq<ProcessorHandle>) -> Result<
        Seq<ProcessorView>,
        AmdSmiError,
    >
        decreases handles.len(),
    {
        if handles.len() == 0 {
            Ok(Seq::empty())
        } else {
            match self.processors(handles.drop_last()) {
                Err(e) => Err(e),
                Ok(before) => match self.processor(handles.last()) {
                    Err(e) => Err(e),
                    Ok(last) => Ok(before.push(last)),
                },
            }
        }
    }

    /// The handles of the processors of `socket`: as many as the host counts.
    pub open spec fn processor_handles(self, socket: SocketHandle) -> Result<
        Seq<ProcessorHandle>,
        AmdSmiError,
    > {
        match self.reply(Request::Socket { socket, query: SocketQuery::ProcessorCount }).as_count() {
            Err(e) => Err(e),
            Ok(count) => self.reply(
                Request::Socket { socket, query: SocketQuery::ProcessorHandles { count } },
            ).as_processors(count),
        }
    }

    /// The socket that the host describes under `socket`: its name, then its
    /// processors.
    pub open spec fn socket(self, socket: SocketHandle) -> Result<SocketView, AmdSmiError> {
        match self.reply(Request::Socket { socket, query: SocketQuery::Name }).as_text() {
            Err(e) => Err(e),
            Ok(name) => match self.processor_handles(socket) {
                Err(e) => Err(e),
                Ok(handles) => match self.processors(handles) {
                    Err(e) => Err(e),
                    Ok(processors) => Ok(SocketView { name, processors }),
                },
            },
        }
    }

    /// The sockets that the host describes under `handles`, in their order,
    /// or the failure of the first of them that fails.
    pub open spec fn sockets(self, handles: Seq<SocketHandle>) -> Result<
        Seq<SocketView>,
        AmdSmiError,
    >
        decreases handles.len(),
    {
        if handles.len() == 0 {
            Ok(Seq::empty())
        } else {
            match self.sockets(handles.drop_last()) {
                Err(e) => Err(e),
                Ok(before) => match self.socket(handles.last()) {
                    Err(e) => Err(e),
                    Ok(last) => Ok(before.push(last)),
                },
            }
        }
    }

    /// The handles of the sockets: as many as the host counts.
    pub open spec fn socket_handles(self) -> Result<Seq<SocketHandle>, AmdSmiError> {
        match self.reply(Request::SocketCount).as_count() {
            Err(e) => Err(e),
            Ok(count) => self.reply(Request::SocketHandles { count }).as_sockets(count),
        }
    }

    /// What the host describes: its sockets in the order of their handles,
    /// each with its processors in the order of theirs, or the first failure
    /// on the way.
    pub open spec fn enumeration(self) -> Result<Seq<SocketView>, AmdSmiError> {
        match self.socket_handles() {
            Err(e) => Err(e),
            Ok(handles) => self.sockets(handles),
        }
    }
}

/// The step that ends an enumeration with `result`.
pub open spec fn outcome(result: Result<Seq<SocketView>, AmdSmiError>) -> StepView {
    match result {
        Ok(sockets) => StepView::Done(sockets),
        Err(e) => StepView::Failed(e),
    }
}

/// Where an enumeration in the state `s` stands after at most `steps`
/// requests, each answered by `host`.
pub open spec fn run(s: EnumeratorView, host: Host, steps: nat) -> StepView
    decreases steps,
{
    if steps == 0 {
        StepView::Ask(s)
    } else {
        match s.step(host.reply(s.awaiting)) {
            StepView::Ask(next) => run(next, host, (steps - 1) as nat),
            end => end,
        }
    }
}

/// How far along its processor a query is: the tag comes first.
spec fn rank(query: ProcessorQuery) -> nat {
    match query {
        ProcessorQuery::Tag => 8,
        ProcessorQuery::GpuBdf => 7,
        ProcessorQuery::GpuUuid => 6,
        ProcessorQuery::GpuId => 5,
        ProcessorQuery::GpuRevision => 4,
        ProcessorQuery::GpuVendorName => 3,
        ProcessorQuery::GpuSubsystemId => 2,
        ProcessorQuery::GpuSubsystemName => 1,
        ProcessorQuery::CpuName => 1,
    }
}

/// The sockets that are not complete.
spec fn sockets_left(s: EnumeratorView) -> nat {
    (s.sockets.len() - s.finished.len()) as nat
}

/// Whether a socket is asked about, which comes before its processors.
spec fn socket_stage(s: EnumeratorView) -> nat {
    if s.awaiting is Socket {
        1
    } else {
        0
    }
}

/// What is left of the stage: the questions about the socket, or the
/// processors that are not complete.
spec fn stage_left(s: EnumeratorView) -> nat {
    match s.awaiting {
        Request::Socket { query: SocketQuery::Name, .. } => 2,
        Request::Socket { query: SocketQuery::ProcessorCount, .. } => 1,
        Request::Socket { query: SocketQuery::ProcessorHandles { .. }, .. } => 0,
        _ => (s.processors.len() - s.classified.len()) as nat,
    }
}

/// The questions that are left about the processor at work.
spec fn queries_left(s: EnumeratorView) -> nat {
    match s.awaiting {
        Request::Processor { query, .. } => rank(query),
        _ => 0,
    }
}

/// Whether the identifiers of the processor at work that the state holds are
/// those that the host gives.
spec fn draft_agrees(
    s: EnumeratorView,
    host: Host,
    processor: ProcessorHandle,
    query: ProcessorQuery,
) -> bool {
    match query {
        ProcessorQuery::Tag => true,
        ProcessorQuery::CpuName => host.class(processor) == Ok::<ProcessorClass, AmdSmiError>(
            ProcessorClass::AmdCpu,
        ),
        _ => {
            &&& host.class(processor) == Ok::<ProcessorClass, AmdSmiError>(ProcessorClass::AmdGpu)
            &&& rank(query) <= 6 ==> host.about(processor, ProcessorQuery::GpuBdf).as_address()
                == Ok::<_, AmdSmiError>(s.bdf)
            &&& rank(query) <= 5 ==> host.about(processor, ProcessorQuery::GpuUuid).as_text()
                == Ok::<_, AmdSmiError>(s.uuid)
            &&& rank(query) <= 4 ==> host.about(processor, ProcessorQuery::GpuId).as_identifier()
                == Ok::<_, AmdSmiError>(s.id)
            &&& rank(query) <= 3 ==> host.about(
                processor,
                ProcessorQuery::GpuRevision,
            ).as_identifier() == Ok::<_, AmdSmiError>(s.revision)
            &&& rank(query) <= 2 ==> host.about(processor, ProcessorQuery::GpuVendorName).as_text()
                == Ok::<_, AmdSmiError>(s.vendor_name)
            &&& rank(query) <= 1 ==> host.about(
                processor,
                ProcessorQuery::GpuSubsystemId,
            ).as_identifier() == Ok::<_, AmdSmiError>(s.subsystem_id)
        },
    }
}

/// Whether the sockets that the state holds are those of the host, and the
/// complete ones as the host describes them.
spec fn sockets_agree(s: EnumeratorView, host: Host) -> bool {
    &&& host.socket_handles() == Ok::<_, AmdSmiError>(s.sockets)
    &&& s.finished.len() <= s.sockets.len()
    &&& host.sockets(s.sockets.take(s.finished.len() as int)) == Ok::<_, AmdSmiError>(s.finished)
}

/// Whether the processors that the state holds are those of the socket at
/// work, and the complete ones as the host describes them.
spec fn processors_agree(s: EnumeratorView, host: Host) -> bool {
    let socket = s.sockets[s.finished.len() as int];
    &&& s.finished.len() < s.sockets.len()
    &&& s.classified.len() <= s.processors.len()
    &&& host.reply(Request::Socket { socket, query: SocketQuery::Name }).as_text() == Ok::<
        _,
        AmdSmiError,
    >(s.name)
    &&& host.processor_handles(socket) == Ok::<_, AmdSmiError>(s.processors)
    &&& host.processors(s.processors.take(s.classified.len() as int)) == Ok::<_, AmdSmiError>(
        s.classified,
    )
}

/// Whether all that the state holds is what the host answered on the way to
/// it.
spec fn agrees(s: EnumeratorView, host: Host) -> bool {
    &&& sockets_agree(s, host)
    &&& match s.awaiting {
        Request::Socket { socket, query } => match query {
            SocketQuery::Name => true,
            SocketQuery::ProcessorCount => host.reply(
                Request::Socket { socket, query: SocketQuery::Name },
            ).as_text() == Ok::<_, AmdSmiError>(s.name),
            SocketQuery::ProcessorHandles { count } => {
                &&& host.reply(Request::Socket { socket, query: SocketQuery::Name }).as_text()
                    == Ok::<_, AmdSmiError>(s.name)
                &&& host.reply(
                    Request::Socket { socket, query: SocketQuery::ProcessorCount },
                ).as_count() == Ok::<_, AmdSmiError>(count)
            },
        },
        Request::Processor { processor, query } => {
            &&& processors_agree(s, host)
            &&& draft_agrees(s, host, processor, query)
        },
        _ => false,
    }
}

/// Whether `next` is nearer the end of the enumeration than `s`.
spec fn nearer(next: EnumeratorView, s: EnumeratorView) -> bool {
    ||| sockets_left(next) < sockets_left(s)
    ||| sockets_left(next) == sockets_left(s) && socket_stage(next) < socket_stage(s)
    ||| sockets_left(next) == sockets_left(s) && socket_stage(next) == socket_stage(s)
        && stage_left(next) < stage_left(s)
    ||| sockets_left(next) == sockets_left(s) && socket_stage(next) == socket_stage(s)
        && stage_left(next) == stage_left(s) && queries_left(next) < queries_left(s)
}

/// Whether the step `step` out of the state `s` is what the host describes:
/// it goes on in a state that agrees with the host and is nearer the end, or
/// it ends as the host's enumeration does.
spec fn follows(step: StepView, s: EnumeratorView, host: Host) -> bool {
    match step {
        StepView::Ask(next) => agrees(next, host) && nearer(next, s),
        end => end == outcome(host.enumeration()),
    }
}

/// A failure among the first sockets is the failure of them all.
proof fn lemma_sockets_failed(host: Host, handles: Seq<SocketHandle>, k: int, e: AmdSmiError)
    requires
        0 <= k <= handles.len(),
        host.sockets(handles.take(k)) == Err::<Seq<SocketView>, AmdSmiError>(e),
    ensures
        host.sockets(handles) == Err::<Seq<SocketView>, AmdSmiError>(e),
    decreases handles.len() - k,
{
    if k < handles.len() {
        assert(handles.take(k + 1).drop_last() == handles.take(k));
        lemma_sockets_failed(host, handles, k + 1, e);
    } else {
        assert(handles.take(k) == handles);
    }
}

/// A failure among the first processors is the failure of them all.
proof fn lemma_processors_failed(
    host: Host,
    handles: Seq<ProcessorHandle>,
    k: int,
    e: AmdSmiError,
)
    requires
        0 <= k <= handles.len(),
        host.processors(handles.take(k)) == Err::<Seq<ProcessorView>, AmdSmiError>(e),
    ensures
        host.processors(handles) == Err::<Seq<ProcessorView>, AmdSmiError>(e),
    decreases handles.len() - k,
{
    if k < handles.len() {
        assert(handles.take(k + 1).drop_last() == handles.take(k));
        lemma_processors_failed(host, handles, k + 1, e);
    } else {
        assert(handles.take(k) == handles);
    }
}

/// A socket that fails is the failure of the enumeration, where the sockets
/// before it are complete.
proof fn lemma_socket_failed(s: EnumeratorView, host: Host, e: AmdSmiError)
    requires
        sockets_agree(s, host),
        s.finished.len() < s.sockets.len(),
        host.socket(s.sockets[s.finished.len() as int]) == Err::<SocketView, AmdSmiError>(e),
    ensures
        host.enumeration() == Err::<Seq<SocketView>, AmdSmiError>(e),
{
    let i = s.finished.len() as int;
    assert(s.sockets.take(i + 1).drop_last() == s.sockets.take(i));
    assert(s.sockets.take(i + 1).last() == s.sockets[i]);
    lemma_sockets_failed(host, s.sockets, i + 1, e);
}

/// A processor that fails is the failure of the enumeration, where the
/// sockets and the processors before it are complete.
proof fn lemma_processor_failed(s: EnumeratorView, host: Host, e: AmdSmiError)
    requires
        sockets_agree(s, host),
        processors_agree(s, host),
        s.classified.len() < s.processors.len(),
        host.processor(s.processors[s.classified.len() as int]) == Err::<
            ProcessorView,
            AmdSmiError,
        >(e),
    ensures
        host.enumeration() == Err::<Seq<SocketView>, AmdSmiError>(e),
{
    let j = s.classified.len() as int;
    assert(s.processors.take(j + 1).drop_last() == s.processors.take(j));
    assert(s.processors.take(j + 1).last() == s.processors[j]);
    lemma_processors_failed(host, s.processors, j + 1, e);
    lemma_socket_failed(s, host, e);
}

/// Turning to the next socket follows the host.
proof fn lemma_next_socket(u: EnumeratorView, s: EnumeratorView, host: Host)
    requires
        sockets_agree(u, host),
        sockets_left(u) < sockets_left(s) || s.awaiting is SocketHandles,
    ensures
        follows(u.next_socket(), s, host) || (s.awaiting is SocketHandles && (
        u.next_socket() matches StepView::Ask(next) && agrees(next, host))),
{
    if u.finished.len() >= u.sockets.len() {
        assert(u.sockets.take(u.finished.len() as int) == u.sockets);
    }
}

/// Turning to the next processor follows the host.
proof fn lemma_next_processor(u: EnumeratorView, s: EnumeratorView, host: Host)
    requires
        sockets_agree(u, host),
        processors_agree(u, host),
        u.sockets == s.sockets,
        u.finished == s.finished,
        u.processors.len() - u.classified.len() < stage_left(s) || s.awaiting is Socket,
    ensures
        follows(u.next_processor(), s, host),
{
    let i = u.finished.len() as int;
    if u.classified.len() >= u.processors.len() {
        assert(u.processors.take(u.classified.len() as int) == u.processors);
        let socket = SocketView { name: u.name, processors: u.classified };
        assert(host.socket(u.sockets[i]) == Ok::<SocketView, AmdSmiError>(socket));
        assert(u.sockets.take(i + 1).drop_last() == u.sockets.take(i));
        assert(u.sockets.take(i + 1).last() == u.sockets[i]);
        let v = EnumeratorView {
            finished: u.finished.push(socket),
            name: Seq::empty(),
            classified: Seq::empty(),
            ..u
        };
        assert(sockets_agree(v, host));
        lemma_next_socket(v, s, host);
    }
}

/// Completing the processor at work as the host describes it follows the
/// host.
proof fn lemma_classified_as(
    u: EnumeratorView,
    processor: ProcessorView,
    s: EnumeratorView,
    host: Host,
)
    requires
        sockets_agree(u, host),
        processors_agree(u, host),
        u.sockets == s.sockets,
        u.finished == s.finished,
        u.processors == s.processors,
        u.classified == s.classified,
        s.awaiting is Processor,
        u.classified.len() < u.processors.len(),
        host.processor(u.processors[u.classified.len() as int]) == Ok::<
            ProcessorView,
            AmdSmiError,
        >(processor),
    ensures
        follows(u.classified_as(processor), s, host),
{
    let j = u.classified.len() as int;
    assert(u.processors.take(j + 1).drop_last() == u.processors.take(j));
    assert(u.processors.take(j + 1).last() == u.processors[j]);
    let v = EnumeratorView { classified: u.classified.push(processor), ..u };
    assert(processors_agree(v, host));
    lemma_next_processor(v, s, host);
}

/// A step on the host's answer about a socket follows the host.
proof fn lemma_socket_step(s: EnumeratorView, host: Host)
    requires
        s.wf(),
        agrees(s, host),
        s.awaiting is Socket,
    ensures
        follows(s.step(host.reply(s.awaiting)), s, host),
{
    let reply = host.reply(s.awaiting);
    let i = s.finished.len() as int;
    match s.awaiting {
        Request::Socket { socket, query } => {
            match query {
                SocketQuery::Name => {
                    if let Err(e) = reply.as_text() {
                        lemma_socket_failed(s, host, e);
                    }
                },
                SocketQuery::ProcessorCount => {
                    if let Err(e) = reply.as_count() {
                        lemma_socket_failed(s, host, e);
                    }
                },
                SocketQuery::ProcessorHandles { count } => {
                    match reply.as_processors(count) {
                        Err(e) => {
                            lemma_socket_failed(s, host, e);
                        },
                        Ok(handles) => {
                            let u = EnumeratorView { processors: handles, ..s };
                            assert(u.processors.take(0).len() == 0);
                            assert(u.classified == Seq::<ProcessorView>::empty());
                            assert(processors_agree(u, host));
                            lemma_next_processor(u, s, host);
                        },
                    }
                },
            }
        },
        _ => {},
    }
}

/// A step on the host's answer about a processor follows the host.
proof fn lemma_processor_step(s: EnumeratorView, host: Host)
    requires
        s.wf(),
        agrees(s, host),
        s.awaiting is Processor,
    ensures
        follows(s.step(host.reply(s.awaiting)), s, host),
{
    let reply = host.reply(s.awaiting);
    match s.awaiting {
        Request::Processor { processor, query } => {
            assert(reply == host.about(processor, query));
            match s.step(reply) {
                StepView::Failed(e) => {
                    assert(host.processor(processor) == Err::<ProcessorView, AmdSmiError>(e));
                    lemma_processor_failed(s, host, e);
                },
                _ => {
                    match query {
                        ProcessorQuery::Tag => {
                            let class = host.class(processor)->Ok_0;
                            if class != ProcessorClass::AmdGpu && class != ProcessorClass::AmdCpu {
                                lemma_classified_as(s, ProcessorView::bare(class), s, host);
                            }
                        },
                        ProcessorQuery::GpuSubsystemName => {
                            let text = reply.as_text()->Ok_0;
                            let u = EnumeratorView {
                                uuid: Seq::empty(),
                                vendor_name: Seq::empty(),
                                ..s
                            };
                            assert(host.gpu(processor) == Ok::<ProcessorView, AmdSmiError>(
                                s.gpu(text),
                            ));
                            lemma_classified_as(u, s.gpu(text), s, host);
                        },
                        ProcessorQuery::CpuName => {
                            let text = reply.as_text()->Ok_0;
                            lemma_classified_as(s, ProcessorView::AmdCpu { name: text }, s, host);
                        },
                        _ => {},
                    }
                },
            }
        },
        _ => {},
    }
}

/// From a state that agrees with the host, the enumeration ends as the host
/// describes.
proof fn lemma_run(s: EnumeratorView, host: Host) -> (steps: nat)
    requires
        s.wf(),
        agrees(s, host),
    ensures
        run(s, host, steps) == outcome(host.enumeration()),
    decreases sockets_left(s), socket_stage(s), stage_left(s), queries_left(s),
{
    let reply = host.reply(s.awaiting);
    lemma_step_wf(s, reply);
    if s.awaiting is Socket {
        lemma_socket_step(s, host);
    } else {
        lemma_processor_step(s, host);
    }
    match s.step(reply) {
        StepView::Ask(next) => {
            let rest = lemma_run(next, host);
            rest + 1
        },
        _ => 1,
    }
}

/// Against any host, an enumeration from the start ends after some number of
/// requests, and ends as the host describes: with the host's sockets in the
/// order of their handles, each with its processors in the order of theirs,
/// or with the first failure on the way.
pub proof fn lemma_enumeration(host: Host) -> (steps: nat)
    ensures
        run(EnumeratorView::start(), host, steps) == outcome(host.enumeration()),
{
    let start = EnumeratorView::start();
    reveal_with_fuel(run, 3);
    match host.reply(Request::SocketCount).as_count() {
        Err(e) => 1,
        Ok(count) => {
            let asked = EnumeratorView { awaiting: Request::SocketHandles { count }, ..start };
            assert(start.step(host.reply(start.awaiting)) == StepView::Ask(asked));
            match host.reply(Request::SocketHandles { count }).as_sockets(count) {
                Err(e) => 2,
                Ok(handles) => {
                    let u = EnumeratorView { sockets: handles, ..asked };
                    assert(u.sockets.take(0).len() == 0);
                    assert(sockets_agree(u, host));
                    lemma_next_socket(u, asked, host);
                    lemma_bdf_round_trip(0);
                    lemma_step_wf(asked, host.reply(asked.awaiting));
                    match u.next_socket() {
                        StepView::Ask(next) => {
                            let rest = lemma_run(next, host);
                            rest + 2
                        },
                        _ => 2,
                    }
                },
            }
        },
    }
}

/// Once an enumeration has ended, further steps change nothing.
proof fn lemma_run_stable(s: EnumeratorView, host: Host, a: nat, b: nat)
    requires
        a <= b,
        !(run(s, host, a) is Ask),
    ensures
        run(s, host, b) == run(s, host, a),
    decreases a,
{
    if let StepView::Ask(next) = s.step(host.reply(s.awaiting)) {
        lemma_run_stable(next, host, (a - 1) as nat, (b - 1) as nat);
    }
}

/// However many requests an enumeration from the start took to end against
/// a host, it ended as the host describes.
pub proof fn lemma_run_end(host: Host, steps: nat)
    requires
        !(run(EnumeratorView::start(), host, steps) is Ask),
    ensures
        run(EnumeratorView::start(), host, steps) == outcome(host.enumeration()),
{
    let enough = lemma_enumeration(host);
    if steps <= enough {
        lemma_run_stable(EnumeratorView::start(), host, steps, enough);
    } else {
        lemma_run_stable(EnumeratorView::start(), host, enough, steps);
    }
}

/// The processors that a host describes under some handles are one for each
/// handle, in the order of the handles.
pub proof fn lemma_processors_in_order(host: Host, handles: Seq<ProcessorHandle>)
    ensures
        host.processors(handles) matches Ok(processors) ==> {
            &&& processors.len() == handles.len()
            &&& forall|j: int|
                0 <= j < handles.len() ==> host.processor(#[trigger] handles[j]) == Ok::<
                    ProcessorView,
                    AmdSmiError,
                >(processors[j])
        },
    decreases handles.len(),
{
    if handles.len() > 0 {
        lemma_processors_in_order(host, handles.drop_last());
        if let Ok(processors) = host.processors(handles) {
            let before = host.processors(handles.drop_last())->Ok_0;
            assert forall|j: int| 0 <= j < handles.len() implies host.processor(
                #[trigger] handles[j],
            ) == Ok::<ProcessorView, AmdSmiError>(processors[j]) by {
                if j < handles.len() - 1 {
                    assert(handles[j] == handles.drop_last()[j]);
                    assert(processors[j] == before[j]);
                }
            }
        }
    }
}

/// The sockets that a host describes under some handles are one for each
/// handle, in the order of the handles.
pub proof fn lemma_sockets_in_order(host: Host, handles: Seq<SocketHandle>)
    ensures
        host.sockets(handles) matches Ok(sockets) ==> {
            &&& sockets.len() == handles.len()
            &&& forall|i: int|
                0 <= i < handles.len() ==> host.socket(#[trigger] handles[i]) == Ok::<
                    SocketView,
                    AmdSmiError,
                >(sockets[i])
        },
    decreases handles.len(),
{
    if handles.len() > 0 {
        lemma_sockets_in_order(host, handles.drop_last());
        if let Ok(sockets) = host.sockets(handles) {
            let before = host.sockets(handles.drop_last())->Ok_0;
            assert forall|i: int| 0 <= i < handles.len() implies host.socket(
                #[trigger] handles[i],
            ) == Ok::<SocketView, AmdSmiError>(sockets[i]) by {
                if i < handles.len() - 1 {
                    assert(handles[i] == handles.drop_last()[i]);
                    assert(sockets[i] == before[i]);
                }
            }
        }
    }
}

/// The number that the first call reports is the number of sockets in the
/// list: where the host counts `n` sockets, the buffer of the second call is
/// for `n` handles, and a list that comes out has `n` sockets, the socket of
/// each handle in its place.
pub proof fn lemma_reported_count(host: Host)
    ensures
        host.enumeration() matches Ok(sockets) ==> {
            &&& host.reply(Request::SocketCount).as_count() == Ok::<u32, AmdSmiError>(
                sockets.len() as u32,
            )
            &&& sockets.len() <= u32::MAX
            &&& host.socket_handles() matches Ok(handles) && handles.len() == sockets.len()
                && forall|i: int|
                0 <= i < sockets.len() ==> host.socket(#[trigger] handles[i]) == Ok::<
                    SocketView,
                    AmdSmiError,
                >(sockets[i])
        },
{
    if let Ok(handles) = host.socket_handles() {
        lemma_sockets_in_order(host, handles);
    }
}

/// Where the host counts no sockets, the second call is made with a buffer
/// for no handles and is the last: the enumeration ends with it, in the empty
/// list or in the failure of that call.
pub proof fn lemma_no_sockets(host: Host)
    requires
        host.reply(Request::SocketCount).as_count() == Ok::<u32, AmdSmiError>(0),
    ensures
        EnumeratorView::start().step(host.reply(Request::SocketCount)) == EnumeratorView::start().ask(
            Request::SocketHandles { count: 0 },
        ),
        run(EnumeratorView::start(), host, 2) == outcome(host.enumeration()),
        host.enumeration() == match host.reply(Request::SocketHandles { count: 0 }).as_sockets(0) {
            Ok(_) => Ok::<Seq<SocketView>, AmdSmiError>(Seq::empty()),
            Err(e) => Err(e),
        },
{
    reveal_with_fuel(run, 3);
    if let Ok(handles) = host.socket_handles() {
        lemma_sockets_in_order(host, handles);
        assert(host.sockets(handles)->Ok_0 == Seq::<SocketView>::empty());
    }
}

/// In every list that comes out of an enumeration, the bus address of each
/// GPU fits its fields: function below 8, device below 32, bus below 256.
pub proof fn lemma_addresses_in_range(host: Host)
    ensures
        host.enumeration() matches Ok(sockets) ==> forall|i: int|
            0 <= i < sockets.len() ==> (#[trigger] sockets[i]).valid(),
{
    if let Ok(sockets) = host.enumeration() {
        let handles = host.socket_handles()->Ok_0;
        lemma_sockets_in_order(host, handles);
        assert forall|i: int| 0 <= i < sockets.len() implies (#[trigger] sockets[i]).valid() by {
            let socket = handles[i];
            assert(host.socket(socket) == Ok::<SocketView, AmdSmiError>(sockets[i]));
            let inner = host.processor_handles(socket)->Ok_0;
            lemma_processors_in_order(host, inner);
            let processors = sockets[i].processors;
            assert forall|j: int| 0 <= j < processors.len() implies (
            #[trigger] processors[j]).valid() by {
                assert(host.processor(inner[j]) == Ok::<ProcessorView, AmdSmiError>(
                    processors[j],
                ));
                if let Payload::Address(raw) = host.about(
                    inner[j],
                    ProcessorQuery::GpuBdf,
                ).payload {
                    lemma_bdf_round_trip(raw);
                }
            }
        }
    }
}

/// Where an enumeration in the state `s` stands after at most `steps`
/// requests, of which the first is answered by `answers(at)`, the next by
/// `answers(at + 1)`, and so on: the answers need not fit together.
pub open spec fn run_on(
    s: EnumeratorView,
    answers: spec_fn(nat) -> Reply,
    at: nat,
    steps: nat,
) -> StepView
    decreases steps,
{
    if steps == 0 {
        StepView::Ask(s)
    } else {
        match s.step(answers(at)) {
            StepView::Ask(next) => run_on(next, answers, at + 1, (steps - 1) as nat),
            end => end,
        }
    }
}

/// Turning to the next socket brings the enumeration nearer its end.
proof fn lemma_next_socket_nearer(u: EnumeratorView, s: EnumeratorView)
    requires
        sockets_left(u) < sockets_left(s),
    ensures
        u.next_socket() matches StepView::Ask(next) ==> nearer(next, s),
{
}

/// Turning to the next processor brings the enumeration nearer its end.
proof fn lemma_next_processor_nearer(u: EnumeratorView, s: EnumeratorView)
    requires
        u.sockets == s.sockets,
        u.finished == s.finished,
        u.finished.len() < u.sockets.len(),
        s.awaiting is Socket || (s.awaiting is Processor && u.processors.len()
            - u.classified.len() < stage_left(s)),
    ensures
        u.next_processor() matches StepView::Ask(next) ==> nearer(next, s),
{
    if u.classified.len() >= u.processors.len() {
        let v = EnumeratorView {
            finished: u.finished.push(SocketView { name: u.name, processors: u.classified }),
            name: Seq::empty(),
            classified: Seq::empty(),
            ..u
        };
        lemma_next_socket_nearer(v, s);
    }
}

/// Once the handles of the sockets are there, every step brings the
/// enumeration nearer its end, whatever the answer.
proof fn lemma_nearer(s: EnumeratorView, reply: Reply)
    requires
        s.wf(),
        s.awaiting is Socket || s.awaiting is Processor,
    ensures
        s.step(reply) matches StepView::Ask(next) ==> nearer(next, s),
{
    match s.awaiting {
        Request::Socket { socket, query } => {
            if let SocketQuery::ProcessorHandles { count } = query {
                if let Ok(handles) = reply.as_processors(count) {
                    lemma_next_processor_nearer(EnumeratorView { processors: handles, ..s }, s);
                }
            }
        },
        Request::Processor { processor, query } => {
            match query {
                ProcessorQuery::Tag => {
                    if let Ok(tag) = reply.as_tag() {
                        if let Ok(class) = ProcessorClass::classify(tag) {
                            if class != ProcessorClass::AmdGpu && class != ProcessorClass::AmdCpu {
                                let pushed = s.classified.push(ProcessorView::bare(class));
                                lemma_next_processor_nearer(
                                    EnumeratorView { classified: pushed, ..s },
                                    s,
                                );
                            }
                        }
                    }
                },
                ProcessorQuery::GpuSubsystemName => {
                    if let Ok(text) = reply.as_text() {
                        let pushed = s.classified.push(s.gpu(text));
                        lemma_next_processor_nearer(
                            EnumeratorView {
                                classified: pushed,
                                uuid: Seq::empty(),
                                vendor_name: Seq::empty(),
                                ..s
                            },
                            s,
                        );
                    }
                },
                ProcessorQuery::CpuName => {
                    if let Ok(text) = reply.as_text() {
                        let pushed = s.classified.push(ProcessorView::AmdCpu { name: text });
                        lemma_next_processor_nearer(EnumeratorView { classified: pushed, ..s }, s);
                    }
                },
                _ => {},
            }
        },
        _ => {},
    }
}

/// From a state with the handles of the sockets, the enumeration ends.
proof fn lemma_run_on_ends(s: EnumeratorView, answers: spec_fn(nat) -> Reply, at: nat) -> (steps:
    nat)
    requires
        s.wf(),
        s.awaiting is Socket || s.awaiting is Processor,
    ensures
        !(run_on(s, answers, at, steps) is Ask),
    decreases sockets_left(s), socket_stage(s), stage_left(s), queries_left(s),
{
    lemma_step_wf(s, answers(at));
    lemma_nearer(s, answers(at));
    match s.step(answers(at)) {
        StepView::Ask(next) => {
            let rest = lemma_run_on_ends(next, answers, at + 1);
            rest + 1
        },
        _ => 1,
    }
}

/// Whatever the management library answers, an enumeration from the start
/// ends after some number of requests: with a list of sockets or with a
/// failure.
pub proof fn lemma_terminates(answers: spec_fn(nat) -> Reply) -> (steps: nat)
    ensures
        !(run_on(EnumeratorView::start(), answers, 0, steps) is Ask),
{
    let start = EnumeratorView::start();
    reveal_with_fuel(run_on, 3);
    lemma_bdf_round_trip(0);
    lemma_step_wf(start, answers(0));
    match start.step(answers(0)) {
        StepView::Ask(asked) => {
            lemma_step_wf(asked, answers(1));
            match asked.step(answers(1)) {
                StepView::Ask(next) => {
                    let rest = lemma_run_on_ends(next, answers, 2);
                    rest + 2
                },
                _ => 2,
            }
        },
        _ => 1,
    }
}

} // verus!
