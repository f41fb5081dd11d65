//! The bidirectional stream forwarder: a half-duplex pair of state machines
//! that shuttles bytes from a receive side to a transmit side with the
//! buffer-ownership discipline: every buffer lent by the transmit side is
//! committed back to it, either filled or cut back to its reserved prefix.
//!
//! The transports are modelled by [`SourceStream`] and [`SinkStream`]; a
//! real event loop performs the same transitions one poll at a time.

use vstd::prelude::*;

use crate::datagram_model::{DatagramFactoryModel, DatagramSessionModel};
use crate::flow::{FlowContext, FlowError, FlowResult, SizeHint};
use crate::stream_model::{bytes_from, ModelStream, SinkStream, SourceStream};

verus! {

/// The per-direction forwarder state.
#[derive(Clone, Copy, Debug)]
pub enum ForwardState {
    /// Waiting for the receive side to announce how much it wants to send.
    AwaitingSizeHint,
    /// Waiting for the transmit side to lend a buffer of at least the hinted
    /// size.
    PollingTxBuf(SizeHint),
    /// A lent buffer (reserved prefix of length `offset`) is committed to
    /// the receive side for filling.
    PollingRxBuf { offset: usize },
    /// The receive side reached EOF; waiting for the transmit side's close.
    Closing,
    Done,
}

/// Rank used to show that the state machine makes progress between chunks.
pub open spec fn state_rank(s: ForwardState) -> int {
    match s {
        ForwardState::AwaitingSizeHint => 4,
        ForwardState::PollingTxBuf(_) => 3,
        ForwardState::PollingRxBuf { .. } => 2,
        ForwardState::Closing => 1,
        ForwardState::Done => 0,
    }
}

/// Forward one direction until EOF or failure, starting from `start`.
///
/// Exactly the bytes the receive side still holds are handed to the
/// transmit side, in order, and on a clean EOF the transmit side's close is
/// signaled exactly once. No buffer stays lent when this returns: each one
/// comes back to the transmit side filled, or cut back to its reserved
/// prefix on the EOF and failure paths.
#[verifier::loop_isolation(false)]
pub fn forward_oneway(rx: &mut SourceStream, tx: &mut SinkStream, start: ForwardState) -> (r:
    FlowResult<()>)
    requires
        old(rx).wf(),
        old(rx).pending is None,
        !old(tx).lent,
        old(tx).closes < u32::MAX,
        start is AwaitingSizeHint || start is PollingTxBuf,
    ensures
        final(rx).wf(),
        final(rx).pending is None,
        !final(tx).lent,
        final(rx).chunks == old(rx).chunks,
        final(rx).fails == old(rx).fails,
        final(rx).rejects_commits == old(rx).rejects_commits,
        final(tx).offset == old(tx).offset,
        final(tx).prefix_byte == old(tx).prefix_byte,
        !old(rx).rejects_commits && !old(rx).fails ==> {
            &&& r is Ok
            &&& final(tx).payload() == old(tx).payload() + old(rx).remaining_bytes()
            &&& final(tx).closes == old(tx).closes + 1
            &&& final(rx).next == old(rx).chunks.len()
        },
        old(rx).rejects_commits ==> {
            &&& r == FlowResult::<()>::Err(FlowError::Other)
            &&& final(tx).payload() == old(tx).payload()
            &&& final(tx).closes == old(tx).closes
            &&& final(rx).next == old(rx).next
        },
        !old(rx).rejects_commits && old(rx).fails ==> {
            &&& r == FlowResult::<()>::Err(FlowError::Other)
            &&& final(tx).payload() == old(tx).payload() + old(rx).remaining_bytes()
            &&& final(tx).closes == old(tx).closes
            &&& final(rx).next == old(rx).chunks.len()
        },
{
    let ghost rx0 = *old(rx);
    let ghost tx0 = *old(tx);
    let mut st = start;
    loop
        invariant
            rx.wf(),
            rx.chunks == rx0.chunks,
            rx.fails == rx0.fails,
            rx.rejects_commits == rx0.rejects_commits,
            rx0.next <= rx.next,
            tx.offset == tx0.offset,
            tx.prefix_byte == tx0.prefix_byte,
            tx0.closes < u32::MAX,
            st is Done ==> tx.closes == tx0.closes + 1,
            !(st is Done) ==> tx.closes == tx0.closes,
            tx0.payload() + bytes_from(rx0.chunks.deep_view(), rx0.next as int) == tx.payload()
                + bytes_from(rx.chunks.deep_view(), rx.next as int),
            st matches ForwardState::PollingRxBuf { offset } ==> {
                &&& rx.pending matches Some(p) && p.offset == offset && p.buf@ == tx.prefix()
                &&& offset == tx.offset
                &&& tx.lent
            },
            !(st is PollingRxBuf) ==> rx.pending is None && !tx.lent,
            st is Closing || st is Done ==> rx.next == rx.chunks.len() && !rx.fails,
            rx0.rejects_commits ==> (st is AwaitingSizeHint || st is PollingTxBuf) && rx.next
                == rx0.next && tx.payload() == tx0.payload(),
        decreases rx.chunks@.len() - rx.next, state_rank(st),
    {
        match st {
            ForwardState::AwaitingSizeHint => {
                let size_hint = rx.poll_request_size();
                st = ForwardState::PollingTxBuf(size_hint);
            },
            ForwardState::PollingTxBuf(size_hint) => {
                let want = size_hint.with_min_content(4096);
                let (buf, offset) = tx.poll_tx_buffer(want);
                let ghost lent_prefix = tx.prefix();
                match rx.commit_rx_buffer(buf, offset) {
                    Ok(()) => {
                        st = ForwardState::PollingRxBuf { offset };
                    },
                    Err((mut buf, e)) => {
                        // Hand the untouched buffer back, cut to its
                        // reserved prefix, then surface the failure.
                        buf.truncate(offset);
                        assert(buf@ =~= lent_prefix);
                        assert(buf@.subrange(0, tx.offset as int) =~= tx.prefix());
                        let _ = tx.commit_tx_buffer(buf);
                        assert(tx.payload() =~= tx0.payload());
                        return Err(e);
                    },
                }
            },
            ForwardState::PollingRxBuf { offset } => {
                let ghost pending0 = rx.pending->Some_0.buf@;
                let ghost next0 = rx.next as int;
                match rx.poll_rx_buffer() {
                    Ok(buf) => {
                        assert(buf@.subrange(0, tx.offset as int) =~= tx.prefix());
                        let ghost chunk = rx.chunks.deep_view()[next0];
                        assert(buf@.skip(tx.offset as int) =~= chunk);
                        tx.commit_tx_buffer(buf)?;
                        st = ForwardState::AwaitingSizeHint;
                    },
                    Err((mut buf, e)) => {
                        // EOF or failure: the buffer goes back to the
                        // transmit side cut to its reserved prefix, so the
                        // transmit side sees a well-formed empty hand-back.
                        buf.truncate(offset);
                        assert(buf@ =~= tx.prefix());
                        assert(buf@.subrange(0, tx.offset as int) =~= tx.prefix());
                        assert(buf@.skip(tx.offset as int) =~= Seq::<u8>::empty());
                        match e {
                            FlowError::Eof => {
                                tx.commit_tx_buffer(buf)?;
                                assert(tx.payload() =~= tx0.payload() + bytes_from(
                                    rx0.chunks.deep_view(),
                                    rx0.next as int,
                                ));
                                st = ForwardState::Closing;
                            },
                            FlowError::Other => {
                                let _ = tx.commit_tx_buffer(buf);
                                assert(tx.payload() =~= tx0.payload() + bytes_from(
                                    rx0.chunks.deep_view(),
                                    rx0.next as int,
                                ));
                                return Err(FlowError::Other);
                            },
                        }
                    },
                }
            },
            ForwardState::Closing => {
                tx.poll_close_tx()?;
                st = ForwardState::Done;
            },
            ForwardState::Done => {
                assert(tx.payload() =~= tx0.payload() + bytes_from(
                    rx0.chunks.deep_view(),
                    rx0.next as int,
                ));
                return Ok(());
            },
        }
    }
}

/// Run both directions to completion: uplink from `local`'s receive side
/// into `remote`'s transmit side (resuming from `uplink_start`), then the
/// downlink back. Either direction's failure fails the whole forward; EOF
/// is not an error.
pub fn stream_forward(
    local: &mut ModelStream,
    remote: &mut ModelStream,
    uplink_start: ForwardState,
) -> (r: FlowResult<()>)
    requires
        old(local).src.wf(),
        old(local).src.pending is None,
        !old(local).sink.lent,
        old(local).sink.closes < u32::MAX,
        old(remote).src.wf(),
        old(remote).src.pending is None,
        !old(remote).sink.lent,
        old(remote).sink.closes < u32::MAX,
        uplink_start is AwaitingSizeHint || uplink_start is PollingTxBuf,
    ensures
        final(local).src.pending is None,
        !final(local).sink.lent,
        final(remote).src.pending is None,
        !final(remote).sink.lent,
        clean(old(local).src) && clean(old(remote).src) ==> {
            &&& r is Ok
            &&& final(remote).sink.payload() == old(remote).sink.payload() + old(local).src.remaining_bytes()
            &&& final(remote).sink.closes == old(remote).sink.closes + 1
            &&& final(local).sink.payload() == old(local).sink.payload() + old(remote).src.remaining_bytes()
            &&& final(local).sink.closes == old(local).sink.closes + 1
        },
        !clean(old(local).src) ==> r == FlowResult::<()>::Err(FlowError::Other)
            && final(remote).src == old(remote).src,
{
    forward_oneway(&mut local.src, &mut remote.sink, uplink_start)?;
    forward_oneway(&mut remote.src, &mut local.sink, ForwardState::AwaitingSizeHint)?;
    Ok(())
}

/// A receive side that will neither refuse a committed buffer nor fail:
/// it emits its chunks and then a clean EOF.
pub open spec fn clean(src: SourceStream) -> bool {
    !src.fails && !src.rejects_commits
}

/// When the 100 ms initial-data timer beat the first read of the local
/// stream, and where it struck.
#[derive(Clone, Copy, Debug)]
pub enum InitialReadTiming {
    /// The first chunk arrived before the timer fired.
    Completed,
    /// The timer fired before any buffer was committed to the local receive
    /// side: nothing to recover, the uplink resumes at `PollingTxBuf`.
    FiredBeforeCommit,
    /// The timer fired after the temporary buffer was committed: the pending
    /// receive must be drained to recover the buffer.
    FiredAfterCommit,
}

/// Model of a stream outbound factory: it either produces a scripted remote
/// stream (recording the initial data it was handed for the handshake) or
/// refuses the connection. The script is consumed by the creation: a model
/// factory produces one outbound.
pub struct StreamOutboundFactoryModel {
    pub accepts: bool,
    pub remote_chunks: Vec<Vec<u8>>,
    pub remote_fails: bool,
    pub remote_offset: usize,
    pub remote_prefix_byte: u8,
    pub received_initial: Option<Vec<u8>>,
}

impl StreamOutboundFactoryModel {
    /// Create the outbound stream for `ctx`, tunneling `initial` in the
    /// handshake, or refuse.
    pub fn create_outbound(&mut self, _ctx: &FlowContext, initial: Vec<u8>) -> (r: Result<
        ModelStream,
        FlowError,
    >)
        ensures
            final(self).accepts == old(self).accepts,
            final(self).remote_fails == old(self).remote_fails,
            final(self).remote_offset == old(self).remote_offset,
            final(self).remote_prefix_byte == old(self).remote_prefix_byte,
            final(self).received_initial == Some(initial),
            old(self).accepts ==> (r matches Ok(s) && {
                &&& s.src.wf()
                &&& s.src.chunks == old(self).remote_chunks
                &&& s.src.next == 0
                &&& s.src.fails == old(self).remote_fails
                &&& !s.src.rejects_commits
                &&& s.src.pending is None
                &&& s.sink.offset == old(self).remote_offset
                &&& s.sink.prefix_byte == old(self).remote_prefix_byte
                &&& !s.sink.lent
                &&& s.sink.payload() == Seq::<u8>::empty()
                &&& s.sink.closes == 0
            }),
            !old(self).accepts ==> r == Result::<ModelStream, FlowError>::Err(FlowError::Other),
    {
        self.received_initial = Some(initial);
        if self.accepts {
            let mut chunks: Vec<Vec<u8>> = Vec::new();
            core::mem::swap(&mut chunks, &mut self.remote_chunks);
            let src = SourceStream::new(chunks, self.remote_fails, false);
            let sink = SinkStream::new(self.remote_offset, self.remote_prefix_byte);
            Ok(ModelStream { src, sink })
        } else {
            Err(FlowError::Other)
        }
    }
}

/// Forward one inbound stream through a freshly created outbound.
///
/// Before the outbound exists, up to one buffer is read from the local
/// stream (raced against a 100 ms timer, whose outcome `timing` reports)
/// and passed to the factory as initial data, so protocols that tunnel
/// client bytes in their first packet get a single-RTT handshake. If the
/// timer won after the temporary buffer was committed, that pending receive
/// is drained to recover the buffer; its bytes are not forwarded. If
/// outbound creation fails, the local transmit side is closed cleanly and
/// the error surfaced. Otherwise both directions run to completion, the
/// uplink resuming from the state the initial read left behind.
///
/// Returns the overall result and, when one was created, the outbound
/// stream (for inspection of what the remote side received).
pub fn handle_stream(
    local: &mut ModelStream,
    factory: &mut StreamOutboundFactoryModel,
    ctx: &FlowContext,
    timing: InitialReadTiming,
) -> (r: (FlowResult<()>, Option<ModelStream>))
    requires
        old(local).src.wf(),
        old(local).src.pending is None,
        !old(local).sink.lent,
        old(local).sink.closes < u32::MAX,
        timing is FiredAfterCommit ==> !old(local).src.rejects_commits,
    ensures
        !(timing is FiredAfterCommit && !old(factory).accepts) ==> final(local).src.pending
            is None,
        !final(local).sink.lent,
        timing is Completed && old(local).src.rejects_commits ==> r.0 == FlowResult::<()>::Err(
            FlowError::Other,
        ) && r.1 is None && *final(local) == *old(local) && *final(factory) == *old(factory),
        timing is Completed && !old(local).src.rejects_commits && old(local).src.next >= old(
            local,
        ).src.chunks.len() ==> {
            &&& r.0 == FlowResult::<()>::Err(
                if old(local).src.fails {
                    FlowError::Other
                } else {
                    FlowError::Eof
                },
            )
            &&& r.1 is None
            &&& final(local).sink == old(local).sink
            &&& *final(factory) == *old(factory)
        },
        !old(factory).accepts && initial_read_reaches_factory(*old(local), timing) ==> {
            &&& r.0 == FlowResult::<()>::Err(FlowError::Other)
            &&& r.1 is None
            &&& final(local).sink.closes == old(local).sink.closes + 1
            &&& final(local).sink.payload() == old(local).sink.payload()
        },
        old(factory).accepts && initial_read_reaches_factory(*old(local), timing) && clean(
            old(local).src,
        ) && !old(factory).remote_fails ==> (r.1 matches Some(remote) && {
            &&& remote.sink.payload() == uplink_forwarded(*old(local), timing)
            &&& (final(factory).received_initial matches Some(v) && v@ == initial_data_bytes(
                *old(local),
                timing,
            ))
            &&& (timing is FiredAfterCommit && old(local).src.next >= old(local).src.chunks.len())
                ==> r.0 == FlowResult::<()>::Err(FlowError::Eof) && final(local).sink == old(
                local,
            ).sink
            &&& !(timing is FiredAfterCommit && old(local).src.next >= old(
                local,
            ).src.chunks.len()) ==> {
                &&& r.0 is Ok
                &&& remote.sink.closes == 1
                &&& final(local).sink.payload() == old(local).sink.payload() + bytes_from(
                    old(factory).remote_chunks.deep_view(),
                    0,
                )
                &&& final(local).sink.closes == old(local).sink.closes + 1
            }
        }),
{
    let ghost local0 = *old(local);
    let hint = local.src.poll_request_size();
    let mut initial: Vec<u8> = Vec::new();
    let mut uplink_start = ForwardState::AwaitingSizeHint;
    let mut drain_needed = false;
    match timing {
        InitialReadTiming::Completed => {
            match local.src.commit_rx_buffer(Vec::new(), 0) {
                Ok(()) => {},
                Err((_, e)) => {
                    return (Err(e), None);
                },
            }
            match local.src.poll_rx_buffer() {
                Ok(buf) => {
                    initial = buf;
                },
                Err((_, e)) => {
                    return (Err(e), None);
                },
            }
        },
        InitialReadTiming::FiredBeforeCommit => {
            uplink_start = ForwardState::PollingTxBuf(hint);
        },
        InitialReadTiming::FiredAfterCommit => {
            match local.src.commit_rx_buffer(Vec::new(), 0) {
                Ok(()) => {},
                Err((_, e)) => {
                    return (Err(e), None);
                },
            }
            uplink_start = ForwardState::PollingTxBuf(hint);
            drain_needed = true;
        },
    }
    let created = factory.create_outbound(ctx, initial);
    let mut remote = match created {
        Ok(remote) => remote,
        Err(e) => {
            // The outbound faulted: shut the inbound down normally, without
            // triggering its drainage, then surface the error.
            let _ = local.sink.poll_close_tx();
            return (Err(e), None);
        },
    };
    if drain_needed {
        // Recover the temporary buffer still committed to the local receive
        // side; whatever filled it is discarded, not forwarded.
        match local.src.poll_rx_buffer() {
            Ok(_) => {},
            Err((_, e)) => {
                return (Err(e), Some(remote));
            },
        }
    }
    let res = stream_forward(local, &mut remote, uplink_start);
    (res, Some(remote))
}

/// Whether the initial read path goes on to call the outbound factory for
/// this source script and timer outcome.
pub open spec fn initial_read_reaches_factory(local: ModelStream, timing: InitialReadTiming) -> bool {
    match timing {
        InitialReadTiming::Completed => !local.src.rejects_commits && local.src.next
            < local.src.chunks.len(),
        InitialReadTiming::FiredBeforeCommit => true,
        InitialReadTiming::FiredAfterCommit => true,
    }
}

/// The bytes handed to the factory as initial data: the first chunk when
/// the read completed in time, empty otherwise.
pub open spec fn initial_data_bytes(local: ModelStream, timing: InitialReadTiming) -> Seq<u8> {
    match timing {
        InitialReadTiming::Completed => local.src.chunks.deep_view()[local.src.next as int],
        InitialReadTiming::FiredBeforeCommit => Seq::empty(),
        InitialReadTiming::FiredAfterCommit => Seq::empty(),
    }
}

/// The bytes the uplink state machine forwards to the outbound's transmit
/// side after the initial read: everything behind the first chunk when that
/// chunk was captured as initial data or lost to the drain, everything
/// otherwise.
pub open spec fn uplink_forwarded(local: ModelStream, timing: InitialReadTiming) -> Seq<u8> {
    match timing {
        InitialReadTiming::Completed => bytes_from(
            local.src.chunks.deep_view(),
            local.src.next + 1,
        ),
        InitialReadTiming::FiredBeforeCommit => bytes_from(
            local.src.chunks.deep_view(),
            local.src.next as int,
        ),
        InitialReadTiming::FiredAfterCommit => bytes_from(
            local.src.chunks.deep_view(),
            local.src.next + 1,
        ),
    }
}

/// A stream handler that forwards every inbound stream through the stream
/// outbound factory it holds a weak handle to.
#[derive(Clone, Copy, PartialEq, Eq, Structural, Debug)]
pub struct StreamForwardHandler {
    pub outbound: crate::registry::WeakHandle,
}

impl StreamForwardHandler {
    /// The decision taken on an inbound stream: work is spawned only when
    /// the weak handle to the outbound factory still upgrades; after the
    /// strong store is dropped this handler no-ops.
    pub fn on_stream(&self, set: &crate::registry::PartialPluginSet) -> (spawn: bool)
        ensures
            spawn == set.fully_constructed@.contains(self.outbound),
    {
        set.upgrade(self.outbound)
    }
}

/// A datagram handler that forwards every inbound session through the
/// datagram session factory it holds a weak handle to.
#[derive(Clone, Copy, PartialEq, Eq, Structural, Debug)]
pub struct DatagramForwardHandler {
    pub outbound: crate::registry::WeakHandle,
}

impl DatagramForwardHandler {
    /// The decision taken on an inbound session: work is spawned only when
    /// the weak handle to the outbound factory still upgrades.
    pub fn on_session(&self, set: &crate::registry::PartialPluginSet) -> (spawn: bool)
        ensures
            spawn == set.fully_constructed@.contains(self.outbound),
    {
        set.upgrade(self.outbound)
    }
}

/// How many uplink packets the datagram pump forwards before one side
/// closes: the whole session script, unless the lower side closes first.
pub open spec fn uplink_count(su: int, sl: int) -> int {
    if su <= sl + 1 {
        su
    } else {
        sl + 1
    }
}

/// How many downlink packets the datagram pump forwards before one side
/// closes.
pub open spec fn downlink_count(su: int, sl: int) -> int {
    if sl <= su {
        sl
    } else {
        su
    }
}

/// Pump datagrams between an inbound `session` and an outbound `lower`
/// until either side closes, then shut both down. Within each direction,
/// packets are forwarded in arrival order; across directions there is no
/// ordering relation.
pub fn datagram_forward(session: &mut DatagramSessionModel, lower: &mut DatagramSessionModel) -> (r:
    Result<(), FlowError>)
    requires
        old(session).shutdowns < u32::MAX,
        old(lower).shutdowns < u32::MAX,
    ensures
        r is Ok,
        final(session).shutdowns == old(session).shutdowns + 1,
        final(lower).shutdowns == old(lower).shutdowns + 1,
        final(lower).sent@ == old(lower).sent@ + old(session).incoming@.take(
            uplink_count(old(session).incoming@.len() as int, old(lower).incoming@.len() as int),
        ),
        final(session).sent@ == old(session).sent@ + old(lower).incoming@.take(
            downlink_count(old(session).incoming@.len() as int, old(lower).incoming@.len() as int),
        ),
{
    let ghost s0 = old(session).incoming@;
    let ghost l0 = old(lower).incoming@;
    let ghost ssent0 = old(session).sent@;
    let ghost lsent0 = old(lower).sent@;
    let ghost ssd0 = old(session).shutdowns;
    let ghost lsd0 = old(lower).shutdowns;
    let ghost mut ups: int = 0;
    let ghost mut downs: int = 0;
    loop
        invariant_except_break
            0 <= ups <= s0.len(),
            0 <= downs <= l0.len(),
            ups == downs,
            session.incoming@ == s0.skip(ups),
            lower.incoming@ == l0.skip(downs),
            lower.sent@ == lsent0 + s0.take(ups),
            session.sent@ == ssent0 + l0.take(downs),
            session.shutdowns == ssd0,
            lower.shutdowns == lsd0,
        ensures
            session.shutdowns == ssd0,
            lower.shutdowns == lsd0,
            lower.sent@ == lsent0 + s0.take(ups),
            session.sent@ == ssent0 + l0.take(downs),
            (ups == s0.len() && downs == ups) || (downs == l0.len() && ups == downs + 1 && ups
                <= s0.len()),
            downs <= l0.len(),
        decreases session.incoming@.len() + lower.incoming@.len(),
    {
        match session.poll_recv_from() {
            Some(p) => {
                lower.poll_send_ready();
                lower.send_to(p.addr, p.data);
                proof {
                    assert(s0.skip(ups).len() > 0);
                    assert(s0.skip(ups + 1) =~= s0.skip(ups).skip(1));
                    assert(s0.take(ups + 1) =~= s0.take(ups).push(s0[ups]));
                    assert(s0.skip(ups)[0] == s0[ups]);
                    ups = ups + 1;
                }
            },
            None => {
                break ;
            },
        }
        match lower.poll_recv_from() {
            Some(p) => {
                session.poll_send_ready();
                session.send_to(p.addr, p.data);
                proof {
                    assert(l0.skip(downs).len() > 0);
                    assert(l0.skip(downs + 1) =~= l0.skip(downs).skip(1));
                    assert(l0.take(downs + 1) =~= l0.take(downs).push(l0[downs]));
                    assert(l0.skip(downs)[0] == l0[downs]);
                    downs = downs + 1;
                }
            },
            None => {
                break ;
            },
        }
    }
    proof {
        let su = s0.len() as int;
        let sl = l0.len() as int;
        assert(s0.take(ups) =~= s0.take(uplink_count(su, sl)));
        assert(l0.take(downs) =~= l0.take(downlink_count(su, sl)));
    }
    let r1 = lower.poll_shutdown();
    let r2 = session.poll_shutdown();
    match (r1, r2) {
        (Ok(()), Ok(())) => Ok(()),
        _ => Err(FlowError::Other),
    }
}

/// Bind an outbound datagram session for `ctx` and pump the inbound
/// `session` against it until either side closes. Returns the outbound
/// session as well, for inspection of what was forwarded.
pub fn datagram_on_session(
    session: &mut DatagramSessionModel,
    factory: &mut DatagramFactoryModel,
    ctx: &FlowContext,
) -> (r: (Result<(), FlowError>, Option<DatagramSessionModel>))
    requires
        old(session).shutdowns < u32::MAX,
    ensures
        !old(factory).accepts ==> r.0 == Result::<(), FlowError>::Err(FlowError::Other) && r.1
            is None && *final(session) == *old(session),
        old(factory).accepts ==> {
            &&& r.0 is Ok
            &&& final(session).shutdowns == old(session).shutdowns + 1
            &&& final(session).sent@ == old(session).sent@ + old(factory).lower_incoming@.take(
                downlink_count(
                    old(session).incoming@.len() as int,
                    old(factory).lower_incoming@.len() as int,
                ),
            )
            &&& (r.1 matches Some(lower) && lower.sent@ == old(session).incoming@.take(
                uplink_count(
                    old(session).incoming@.len() as int,
                    old(factory).lower_incoming@.len() as int,
                ),
            ) && lower.shutdowns == 1)
        },
{
    let mut lower = match factory.bind(ctx) {
        Ok(lower) => lower,
        Err(e) => {
            return (Err(e), None);
        },
    };
    let res = datagram_forward(session, &mut lower);
    (res, Some(lower))
}

} // verus!
