//! A tee for byte streams: one physical read on a source feeds the reader and every tap that is
//! attached to it.

use crate::registry::Registry;
use crate::source::{min_len, Cursor, Source};
use std::collections::VecDeque;
use vstd::prelude::*;
use vstd::slice::{slice_subrange, slice_to_vec};

verus! {

/// One tap's channel as a specification sees it.
pub struct ChannelView {
    /// The chunks sent to the tap and not yet received by it, oldest first.
    pub queue: Seq<Seq<u8>>,
    /// Whether the sending half is still registered.
    pub open: bool,
}

/// One tap's channel: the chunks on their way to the tap, and whether more may follow.
struct TapChannel {
    queue: VecDeque<Vec<u8>>,
    open: bool,
}

impl View for TapChannel {
    type V = ChannelView;

    closed spec fn view(&self) -> ChannelView {
        ChannelView { queue: self.queue@.map_values(|chunk: Vec<u8>| chunk@), open: self.open }
    }
}

/// The routing state of a tee as a specification sees it.
pub struct TeeView {
    /// The channels of the taps that are attached, by tap id.
    pub taps: Map<u64, ChannelView>,
    /// The ids whose removal was requested and not yet carried out, oldest first.
    pub pending: Seq<u64>,
    /// The id that the next tap gets.
    pub next_id: u64,
}

impl TeeView {
    /// No tap attached, no removal pending, ids starting at 0.
    pub open spec fn empty() -> TeeView {
        TeeView { taps: Map::empty(), pending: Seq::empty(), next_id: 0 }
    }

    /// A new tap with an empty queue under the next id.
    pub open spec fn attach(self) -> TeeView {
        TeeView {
            taps: self.taps.insert(self.next_id, ChannelView { queue: Seq::empty(), open: true }),
            pending: self.pending,
            next_id: (self.next_id + 1) as u64,
        }
    }

    /// A request to remove the tap `id`, carried out by the next `reconcile`.
    pub open spec fn detach(self, id: u64) -> TeeView {
        TeeView { taps: self.taps, pending: self.pending.push(id), next_id: self.next_id }
    }

    /// Every tap whose removal is pending is gone, and nothing is pending.
    pub open spec fn reconcile(self) -> TeeView {
        TeeView {
            taps: self.taps.remove_keys(self.pending.to_set()),
            pending: Seq::empty(),
            next_id: self.next_id,
        }
    }

    /// `chunk` at the back of the queue of every open channel.
    pub open spec fn fan_out(self, chunk: Seq<u8>) -> TeeView {
        TeeView {
            taps: self.taps.map_values(
                |c: ChannelView|
                    if c.open {
                        ChannelView { queue: c.queue.push(chunk), open: true }
                    } else {
                        c
                    },
            ),
            pending: self.pending,
            next_id: self.next_id,
        }
    }

    /// Every channel closed; what is queued stays queued.
    pub open spec fn close(self) -> TeeView {
        TeeView {
            taps: self.taps.map_values(|c: ChannelView| ChannelView { queue: c.queue, open: false }),
            pending: self.pending,
            next_id: self.next_id,
        }
    }

    /// The state after the physical reads that yielded `chunks`, in that order.
    pub open spec fn read_all(self, chunks: Seq<Seq<u8>>) -> TeeView
        decreases chunks.len(),
    {
        if chunks.len() == 0 {
            self
        } else {
            self.read_all(chunks.drop_last()).reconcile().fan_out(chunks.last())
        }
    }

    /// Whether the state is one that a tee can be in: a removal is pending only for an id that
    /// was handed out.
    pub open spec fn wf(self) -> bool {
        forall|i: int| 0 <= i < self.pending.len() ==> #[trigger] self.pending[i] < self.next_id
    }

    /// Whether the tap `id` is attached and open, and no removal is pending for it.
    pub open spec fn listening(self, id: u64) -> bool {
        self.taps.contains_key(id) && self.taps[id].open && !self.pending.contains(id)
    }

    /// Whether a chunk is waiting for the tap `id`.
    pub open spec fn has_chunk(self, id: u64) -> bool {
        self.taps.contains_key(id) && self.taps[id].queue.len() > 0
    }

    /// Whether nothing is waiting for the tap `id` and nothing will come.
    pub open spec fn disconnected(self, id: u64) -> bool {
        !self.taps.contains_key(id) || (self.taps[id].queue.len() == 0 && !self.taps[id].open)
    }

    /// The oldest chunk waiting for the tap `id` taken off its queue.
    pub open spec fn take(self, id: u64) -> TeeView {
        TeeView {
            taps: self.taps.insert(
                id,
                ChannelView { queue: self.taps[id].queue.drop_first(), open: self.taps[id].open },
            ),
            pending: self.pending,
            next_id: self.next_id,
        }
    }
}

/// What a suffix of `s` holds beside the suffix that is one shorter.
proof fn lemma_skip_to_set(s: Seq<u64>, k: int)
    requires
        0 < k <= s.len(),
    ensures
        s.skip(k - 1).to_set() == s.skip(k).to_set().insert(s[k - 1]),
{
    let longer = s.skip(k - 1);
    let shorter = s.skip(k);
    assert forall|x: u64| longer.to_set().contains(x) implies #[trigger] shorter.to_set().insert(
        s[k - 1],
    ).contains(x) by {
        let i = choose|i: int| 0 <= i < longer.len() && #[trigger] longer[i] == x;
        if i > 0 {
            assert(shorter[i - 1] == x);
        }
    }
    assert forall|x: u64| #[trigger]
        shorter.to_set().insert(s[k - 1]).contains(x) implies longer.to_set().contains(x) by {
        if x == s[k - 1] {
            assert(longer[0] == x);
        } else {
            let i = choose|i: int| 0 <= i < shorter.len() && #[trigger] shorter[i] == x;
            assert(longer[i + 1] == x);
        }
    }
    assert(longer.to_set() =~= shorter.to_set().insert(s[k - 1]));
}

/// What a chunk read from the source, or the failure to read one, makes of a channel.
pub open spec fn routed(c: ChannelView, event: Option<&[u8]>) -> ChannelView {
    match event {
        Some(chunk) => if c.open {
            ChannelView { queue: c.queue.push(chunk@), open: true }
        } else {
            c
        },
        None => ChannelView { queue: c.queue, open: false },
    }
}

/// A tap as a specification sees it.
pub struct TappedView {
    /// The id under which the tap is attached.
    pub id: u64,
    /// The bytes of the chunk received last that the tap's owner has not read yet.
    pub unread: Seq<u8>,
    /// Whether the tap still expects chunks.
    pub connected: bool,
}

/// One consumer's end of a tee: it yields a copy of every byte read from the source since the
/// tap was attached.
pub struct Tapped {
    tap_id: u64,
    current_slice: Option<Cursor>,
    connected: bool,
}

impl View for Tapped {
    type V = TappedView;

    closed spec fn view(&self) -> TappedView {
        TappedView {
            id: self.tap_id,
            unread: match self.current_slice {
                Some(slice) => slice.remaining(),
                None => Seq::empty(),
            },
            connected: self.connected,
        }
    }
}

/// A tap had nothing to hand over yet, though more may come.
pub struct WouldBlock;

/// What one read on a tap does: the tap, the tee and the buffer afterwards, and the result.
///
/// Bytes of the chunk received last are served first. Once they are gone the next chunk is taken
/// off the tap's queue and served from its front. Where no chunk is waiting, the read ends the
/// stream with 0 bytes if none can come any more, and otherwise reports `WouldBlock`.
pub open spec fn tap_read(tap: TappedView, tee: TeeView, buf: Seq<u8>) -> (
    TappedView,
    TeeView,
    Seq<u8>,
    Result<usize, WouldBlock>,
) {
    if tap.unread.len() > 0 {
        let n = min_len(buf.len() as int, tap.unread.len() as int);
        (
            TappedView { id: tap.id, unread: tap.unread.skip(n), connected: tap.connected },
            tee,
            tap.unread.take(n) + buf.skip(n),
            Ok(n as usize),
        )
    } else if !tap.connected || tee.disconnected(tap.id) {
        (TappedView { id: tap.id, unread: tap.unread, connected: false }, tee, buf, Ok(0usize))
    } else if tee.has_chunk(tap.id) {
        let chunk = tee.taps[tap.id].queue[0];
        let n = min_len(buf.len() as int, chunk.len() as int);
        (
            TappedView { id: tap.id, unread: chunk.skip(n), connected: true },
            tee.take(tap.id),
            chunk.take(n) + buf.skip(n),
            Ok(n as usize),
        )
    } else {
        (tap, tee, buf, Err(WouldBlock))
    }
}

/// What reading a tap until a read yields 0 bytes does: the tap and the tee afterwards, the bytes
/// handed over, and whether the end was reached (if not, the tap ran dry while more may come).
pub open spec fn tap_drain(tap: TappedView, tee: TeeView) -> (TappedView, TeeView, Seq<u8>, bool)
    decreases
        (if tee.has_chunk(tap.id) {
            tee.taps[tap.id].queue.len()
        } else {
            0
        }),
        tap.unread.len(),
{
    if tap.unread.len() > 0 {
        let rest = tap_drain(
            TappedView { id: tap.id, unread: Seq::empty(), connected: tap.connected },
            tee,
        );
        (rest.0, rest.1, tap.unread + rest.2, rest.3)
    } else if !tap.connected || tee.disconnected(tap.id) {
        (
            TappedView { id: tap.id, unread: tap.unread, connected: false },
            tee,
            Seq::empty(),
            true,
        )
    } else if tee.has_chunk(tap.id) {
        let chunk = tee.taps[tap.id].queue[0];
        if chunk.len() == 0 {
            (tap, tee.take(tap.id), Seq::empty(), true)
        } else {
            let rest = tap_drain(tap, tee.take(tap.id));
            (rest.0, rest.1, chunk + rest.2, rest.3)
        }
    } else {
        (tap, tee, Seq::empty(), false)
    }
}

impl Tapped {
    /// Serves bytes of the chunk received last into the front of `buf`, as many as fit.
    pub fn read_current_slice(&mut self, buf: &mut [u8]) -> (n: usize)
        ensures
            n == min_len(old(buf)@.len() as int, old(self)@.unread.len() as int),
            final(buf)@ == old(self)@.unread.take(n as int) + old(buf)@.skip(n as int),
            final(self)@ == (TappedView {
                id: old(self)@.id,
                unread: old(self)@.unread.skip(n as int),
                connected: old(self)@.connected,
            }),
    {
        match &mut self.current_slice {
            Some(slice) => slice.read_slice(buf),
            None => {
                assert(buf@ =~= Seq::<u8>::empty() + buf@.skip(0));
                assert(self@.unread.skip(0) =~= self@.unread);
                0
            },
        }
    }

    /// Takes up what the channel handed over. A chunk becomes the current one and its first
    /// bytes are served into the front of `buf`, as many as fit; without a chunk the channel is
    /// gone, and the stream has ended.
    pub fn read_next_slice(&mut self, received: Option<Vec<u8>>, buf: &mut [u8]) -> (n: usize)
        ensures
            match received {
                Some(chunk) => {
                    &&& n == min_len(old(buf)@.len() as int, chunk@.len() as int)
                    &&& final(buf)@ == chunk@.take(n as int) + old(buf)@.skip(n as int)
                    &&& final(self)@ == (TappedView {
                        id: old(self)@.id,
                        unread: chunk@.skip(n as int),
                        connected: old(self)@.connected,
                    })
                },
                None => {
                    &&& n == 0
                    &&& final(buf)@ == old(buf)@
                    &&& final(self)@ == (TappedView {
                        id: old(self)@.id,
                        unread: old(self)@.unread,
                        connected: false,
                    })
                },
            },
    {
        match received {
            Some(chunk) => {
                let mut slice = Cursor::new(chunk);
                let n = slice.read_slice(buf);
                self.current_slice = Some(slice);
                n
            },
            None => {
                self.connected = false;
                0
            },
        }
    }

    /// Reads the next bytes of the tap's stream into the front of `buf`.
    pub fn read<R: Source>(&mut self, reader: &mut TappableReader<R>, buf: &mut [u8]) -> (res:
        Result<usize, WouldBlock>)
        ensures
            (final(self)@, final(reader)@, final(buf)@, res) == tap_read(
                old(self)@,
                old(reader)@,
                old(buf)@,
            ),
            final(reader).source() == old(reader).source(),
    {
        let exhausted = match &self.current_slice {
            Some(slice) => slice.is_exhausted(),
            None => true,
        };
        if !exhausted {
            Ok(self.read_current_slice(buf))
        } else if !self.connected {
            Ok(self.read_next_slice(None, buf))
        } else {
            match reader.try_recv(self.tap_id) {
                Ok(chunk) => Ok(self.read_next_slice(Some(chunk), buf)),
                Err(TryRecvError::Disconnected) => Ok(self.read_next_slice(None, buf)),
                Err(TryRecvError::Empty) => Err(WouldBlock),
            }
        }
    }

    /// Reads the tap until a read yields 0 bytes, and appends what was read to `out`. The result
    /// is the number of bytes appended, or `WouldBlock` where the tap ran dry while more may
    /// come; the bytes read until then stay in `out`.
    pub fn read_to_end<R: Source>(&mut self, reader: &mut TappableReader<R>, out: &mut Vec<u8>) -> (res:
        Result<usize, WouldBlock>)
        ensures
            final(self)@ == tap_drain(old(self)@, old(reader)@).0,
            final(reader)@ == tap_drain(old(self)@, old(reader)@).1,
            final(out)@ == old(out)@ + tap_drain(old(self)@, old(reader)@).2,
            res is Ok == tap_drain(old(self)@, old(reader)@).3,
            res matches Ok(n) ==> n == tap_drain(old(self)@, old(reader)@).2.len(),
            final(reader).source() == old(reader).source(),
    {
        let ghost goal = tap_drain(old(self)@, old(reader)@);
        let start = out.len();
        match &mut self.current_slice {
            Some(slice) => {
                let _ = slice.read_to_end(out);
            },
            None => {},
        }
        assert(out@ =~= old(out)@ + old(self)@.unread);
        assert(self@.unread =~= Seq::<u8>::empty());
        assert(old(self)@.unread.len() == 0 ==> self@ == old(self)@) by {
            if old(self)@.unread.len() == 0 {
                assert(old(self)@.unread =~= Seq::<u8>::empty());
            }
        }
        assert(old(out)@ + goal.2 =~= out@ + tap_drain(self@, reader@).2);
        loop
            invariant
                goal == tap_drain(old(self)@, old(reader)@),
                start == old(out)@.len(),
                self@.unread.len() == 0,
                self@.id == old(self)@.id,
                reader.source() == old(reader).source(),
                out@.len() >= start,
                goal.0 == tap_drain(self@, reader@).0,
                goal.1 == tap_drain(self@, reader@).1,
                old(out)@ + goal.2 == out@ + tap_drain(self@, reader@).2,
                goal.3 == tap_drain(self@, reader@).3,
            decreases
                (if reader@.has_chunk(self@.id) {
                    reader@.taps[self@.id].queue.len()
                } else {
                    0
                }),
        {
            if !self.connected {
                proof {
                    lemma_nothing_left(old(out)@, goal.2, out@);
                }
                return Ok(out.len() - start);
            }
            match reader.try_recv(self.tap_id) {
                Ok(chunk) => {
                    if chunk.len() == 0 {
                        proof {
                            lemma_nothing_left(old(out)@, goal.2, out@);
                        }
                        return Ok(out.len() - start);
                    }
                    let mut chunk = chunk;
                    let ghost before = out@;
                    let ghost bytes = chunk@;
                    let ghost rest = tap_drain(self@, reader@).2;
                    out.append(&mut chunk);
                    assert(out@ + rest =~= before + (bytes + rest));
                },
                Err(TryRecvError::Disconnected) => {
                    self.connected = false;
                    proof {
                        lemma_nothing_left(old(out)@, goal.2, out@);
                    }
                    return Ok(out.len() - start);
                },
                Err(TryRecvError::Empty) => {
                    proof {
                        lemma_nothing_left(old(out)@, goal.2, out@);
                    }
                    return Err(WouldBlock);
                },
            }
        }
    }

    /// Asks the tee to remove this tap. The tee does so at its next physical read. A tee that
    /// never handed out the tap's id passes the request over.
    pub fn unregister<R: Source>(self, reader: &mut TappableReader<R>)
        ensures
            final(reader)@ == if self@.id < old(reader)@.next_id {
                old(reader)@.detach(self@.id)
            } else {
                old(reader)@
            },
            final(reader).source() == old(reader).source(),
    {
        if self.tap_id < reader.taps.next() {
            reader.shutdown.push(self.tap_id);
        }
    }
}

/// Where nothing is left to append, all that was to be appended is there.
proof fn lemma_nothing_left(base: Seq<u8>, more: Seq<u8>, whole: Seq<u8>)
    requires
        base + more == whole + Seq::<u8>::empty(),
    ensures
        whole == base + more,
        whole.len() == base.len() + more.len(),
{
    assert(whole + Seq::<u8>::empty() =~= whole);
}

/// Why a tap got no chunk.
pub enum TryRecvError {
    /// No chunk is waiting, but more may come.
    Empty,
    /// No chunk is waiting and none will come.
    Disconnected,
}

/// A byte source that copies what is read from it to every tap attached to it.
pub struct TappableReader<R: Source> {
    source: R,
    taps: Registry<TapChannel>,
    shutdown: Vec<u64>,
}

impl<R: Source> View for TappableReader<R> {
    type V = TeeView;

    closed spec fn view(&self) -> TeeView {
        TeeView {
            taps: self.taps.members().map_values(|c: TapChannel| c@),
            pending: self.shutdown@,
            next_id: self.taps.next_id(),
        }
    }
}

impl<R: Source> TappableReader<R> {
    /// The wrapped source.
    pub closed spec fn source(&self) -> R {
        self.source
    }

    /// Wraps `source`; no tap is attached yet.
    pub fn new(source: R) -> (reader: Self)
        ensures
            reader@ == TeeView::empty(),
            reader.source() == source,
    {
        let reader = TappableReader { source, taps: Registry::new(), shutdown: Vec::new() };
        assert(reader@.taps =~= Map::<u64, ChannelView>::empty());
        reader
    }

    /// Gives the wrapped source back. The taps and what is queued for them are dropped.
    pub fn into_inner(self) -> (source: R)
        ensures
            source == self.source(),
    {
        self.source
    }

    /// Carries out the removals that were requested since the last physical read.
    pub fn reconcile_taps(&mut self)
        ensures
            final(self)@ == old(self)@.reconcile(),
            final(self).source() == old(self).source(),
    {
        let ghost before = self.taps.members();
        let ghost requests = self.shutdown@;
        while self.shutdown.len() > 0
            invariant
                self.source == old(self).source,
                self.taps.next_id() == old(self).taps.next_id(),
                self.shutdown@.len() <= requests.len(),
                self.shutdown@ == requests.take(self.shutdown@.len() as int),
                self.taps.members() == before.remove_keys(
                    requests.skip(self.shutdown@.len() as int).to_set(),
                ),
            decreases self.shutdown@.len(),
        {
            let ghost k = self.shutdown@.len() as int;
            let id = self.shutdown.pop().unwrap();
            let _ = self.taps.unregister(id);
            proof {
                lemma_skip_to_set(requests, k);
            }
            assert(self.taps.members() =~= before.remove_keys(requests.skip(k - 1).to_set()));
            assert(self.shutdown@ =~= requests.take(k - 1));
        }
        assert(requests.skip(0) =~= requests);
        assert(self.shutdown@ =~= Seq::<u64>::empty());
        assert(self@.taps =~= old(self)@.reconcile().taps);
    }

    /// Attaches a tap: it receives every chunk read from now on, and none read before. The
    /// tap starts with an empty queue and nothing unread, whatever was read before; the source
    /// is not read; and the queue of every other tap stays as it was.
    pub fn tap(&mut self) -> (tapped: Tapped)
        requires
            old(self)@.next_id < u64::MAX,
        ensures
            final(self)@ == old(self)@.attach(),
            final(self).source() == old(self).source(),
            tapped@ == (TappedView { id: old(self)@.next_id, unread: Seq::empty(), connected: true }),
            !old(self)@.taps.contains_key(tapped@.id),
            final(self)@.taps.contains_key(tapped@.id),
            final(self)@.taps[tapped@.id] == (ChannelView { queue: Seq::empty(), open: true }),
            forall|id: u64|
                id != tapped@.id ==> {
                    &&& final(self)@.taps.contains_key(id) == old(self)@.taps.contains_key(id)
                    &&& #[trigger] final(self)@.taps[id] == old(self)@.taps[id]
                },
    {
        let channel = TapChannel { queue: VecDeque::new(), open: true };
        assert(channel@.queue =~= Seq::<Seq<u8>>::empty());
        let tap_id = self.taps.register(channel);
        assert(self@.taps =~= old(self)@.attach().taps);
        Tapped { tap_id, current_slice: None, connected: true }
    }

    /// Does to every channel what `event` asks for: with a chunk, puts a copy of it at the back
    /// of every open channel; without one, closes every channel.
    fn update_channels(&mut self, event: Option<&[u8]>)
        ensures
            final(self).source() == old(self).source(),
            final(self)@ == match event {
                Some(chunk) => old(self)@.fan_out(chunk@),
                None => old(self)@.close(),
            },
    {
        let ghost before = self.taps.members();
        let ghost after = |c: ChannelView| routed(c, event);
        let ids = self.taps.ids();
        let mut i: usize = 0;
        while i < ids.len()
            invariant
                i <= ids@.len(),
                ids@.no_duplicates(),
                ids@.to_set() == before.dom(),
                forall|j: int| 0 <= j < ids@.len() ==> #[trigger] ids@[j] < self.taps.next_id(),
                self.source == old(self).source,
                self.shutdown == old(self).shutdown,
                self.taps.next_id() == old(self).taps.next_id(),
                self.taps.members().dom() == before.dom(),
                forall|j: int| 0 <= j < i ==> (#[trigger] self.taps.members()[ids@[j]])@ == routed(before[ids@[j]]@, event),
                forall|j: int| i <= j < ids@.len() ==> #[trigger] self.taps.members()[ids@[j]] == before[ids@[j]],
            decreases ids@.len() - i,
        {
            let id = ids[i];
            assert(ids@.to_set().contains(ids@[i as int]));
            let ghost step = self.taps.members();
            match self.taps.unregister(id) {
                Some(channel) => {
                    let mut channel = channel;
                    match event {
                        Some(chunk) => {
                            if channel.open {
                                let ghost queue = channel.queue@;
                                channel.queue.push_back(slice_to_vec(chunk));
                                assert(channel@.queue =~= queue.map_values(|c: Vec<u8>| c@).push(chunk@));
                            }
                        },
                        None => {
                            channel.open = false;
                        },
                    }
                    self.taps.restore(id, channel);
                },
                None => {},
            }
            assert(self.taps.members().dom() =~= before.dom());
            assert forall|j: int| 0 <= j < i + 1 implies (#[trigger] self.taps.members()[ids@[j]])@ == routed(before[ids@[j]]@, event) by {
                if j < i {
                    assert(ids@[j] != ids@[i as int]);
                    assert(self.taps.members()[ids@[j]] == step[ids@[j]]);
                }
            }
            assert forall|j: int| i + 1 <= j < ids@.len() implies #[trigger] self.taps.members()[ids@[j]] == before[ids@[j]] by {
                assert(ids@[j] != ids@[i as int]);
                assert(self.taps.members()[ids@[j]] == step[ids@[j]]);
            }
            i += 1;
        }
        proof {
            let target = match event {
                Some(chunk) => old(self)@.fan_out(chunk@),
                None => old(self)@.close(),
            };
            assert forall|id: u64| #[trigger] self@.taps.contains_key(id) implies self@.taps[id] == target.taps[id] by {
                assert(ids@.to_set().contains(id));
                let j = choose|j: int| 0 <= j < ids@.len() && #[trigger] ids@[j] == id;
                assert((self.taps.members()[ids@[j]])@ == routed(before[ids@[j]]@, event));
            }
            assert(self@.taps =~= target.taps);
        }
    }

    /// Carries out the pending removals, then puts a copy of `data` at the back of the queue of
    /// every tap that is attached and open.
    pub fn send_to_taps(&mut self, data: &[u8])
        ensures
            final(self)@ == old(self)@.reconcile().fan_out(data@),
            final(self).source() == old(self).source(),
    {
        self.reconcile_taps();
        self.update_channels(Some(data));
    }

    /// Closes the channel of every tap: each still receives what is queued for it, then sees the
    /// end of the stream.
    pub fn close_taps(&mut self)
        ensures
            final(self)@ == old(self)@.close(),
            final(self).source() == old(self).source(),
    {
        self.update_channels(None);
    }

    /// Routes the outcome of one read on the source, whose bytes are in the front of `data`.
    /// The pending removals are carried out first. After a read of `n` bytes every open tap gets
    /// a copy of those bytes; after a failed read every tap's channel is closed. The outcome
    /// itself goes back unchanged.
    pub fn deliver(&mut self, data: &[u8], outcome: Result<usize, R::Error>) -> (res: Result<
        usize,
        R::Error,
    >)
        requires
            outcome matches Ok(n) ==> n <= data@.len(),
        ensures
            res == outcome,
            final(self).source() == old(self).source(),
            final(self)@ == match outcome {
                Ok(n) => old(self)@.reconcile().fan_out(data@.take(n as int)),
                Err(_) => old(self)@.reconcile().close(),
            },
    {
        match outcome {
            Ok(n) => {
                self.send_to_taps(slice_subrange(data, 0, n));
                Ok(n)
            },
            Err(err) => {
                self.reconcile_taps();
                self.close_taps();
                Err(err)
            },
        }
    }

    /// Hands over the oldest chunk that waits for the tap `id`, without waiting for one.
    pub fn try_recv(&mut self, id: u64) -> (res: Result<Vec<u8>, TryRecvError>)
        ensures
            final(self).source() == old(self).source(),
            match res {
                Ok(chunk) => {
                    &&& old(self)@.has_chunk(id)
                    &&& chunk@ == old(self)@.taps[id].queue[0]
                    &&& final(self)@ == old(self)@.take(id)
                },
                Err(TryRecvError::Disconnected) => {
                    &&& old(self)@.disconnected(id)
                    &&& final(self)@ == old(self)@
                },
                Err(TryRecvError::Empty) => {
                    &&& !old(self)@.has_chunk(id)
                    &&& !old(self)@.disconnected(id)
                    &&& final(self)@ == old(self)@
                },
            },
    {
        match self.taps.unregister(id) {
            None => {
                assert(self@.taps =~= old(self)@.taps);
                Err(TryRecvError::Disconnected)
            },
            Some(channel) => {
                let mut channel = channel;
                let ghost before = channel@;
                assert(before == old(self)@.taps[id]);
                let open = channel.open;
                let front = channel.queue.pop_front();
                assert(channel@.queue =~= if before.queue.len() > 0 {
                    before.queue.drop_first()
                } else {
                    before.queue
                });
                self.taps.restore(id, channel);
                match front {
                    Some(chunk) => {
                        assert(before.queue[0] == chunk@);
                        assert(self@.taps =~= old(self)@.take(id).taps);
                        Ok(chunk)
                    },
                    None => {
                        assert(self@.taps =~= old(self)@.taps);
                        if open {
                            Err(TryRecvError::Empty)
                        } else {
                            Err(TryRecvError::Disconnected)
                        }
                    },
                }
            },
        }
    }
}

impl<R: Source> Source for TappableReader<R> {
    type Error = R::Error;

    /// A read on a tee is one read on the wrapped source, with the source's own result. Before
    /// it the pending removals are carried out. After a read of `n` bytes every open tap has
    /// got a copy of those bytes; after a failed read every tap's channel is closed.
    open spec fn read_allows(
        &self,
        after: &Self,
        buf: Seq<u8>,
        filled: Seq<u8>,
        res: Result<usize, R::Error>,
    ) -> bool {
        &&& self.source().read_allows(&after.source(), buf, filled, res)
        &&& after@ == match res {
            Ok(n) => self@.reconcile().fan_out(filled.take(n as int)),
            Err(_) => self@.reconcile().close(),
        }
    }

    /// One physical read: the pending removals are carried out, the wrapped source is read once
    /// into `buf`, every open tap gets a copy of the bytes read, and the source's own result goes
    /// back to the caller. After a failed read every tap's channel is closed.
    fn read(&mut self, buf: &mut [u8]) -> (res: Result<usize, R::Error>) {
        let outcome = self.source.read(buf);
        self.deliver(buf, outcome)
    }
}

/// Fan-out in order: while a tap listens, its queue grows by exactly the chunks that are read
/// from the source, in the order in which they are read.
pub proof fn lemma_tap_receives_every_chunk(tee: TeeView, id: u64, chunks: Seq<Seq<u8>>)
    requires
        tee.listening(id),
    ensures
        tee.read_all(chunks).listening(id),
        tee.read_all(chunks).taps[id].queue == tee.taps[id].queue + chunks,
    decreases chunks.len(),
{
    if chunks.len() == 0 {
        assert(tee.taps[id].queue + chunks =~= tee.taps[id].queue);
    } else {
        let earlier = tee.read_all(chunks.drop_last());
        lemma_tap_receives_every_chunk(tee, id, chunks.drop_last());
        assert(!earlier.pending.to_set().contains(id));
        assert(earlier.reconcile().taps[id] == earlier.taps[id]);
        assert(tee.taps[id].queue + chunks =~= (tee.taps[id].queue + chunks.drop_last()).push(
            chunks.last(),
        ));
    }
}

/// A tee stays in a state that a tee can be in, whatever is done to it: a tap attached while
/// ids are left, a removal requested for an id that was handed out, the removals carried out, a
/// chunk fanned out, the channels closed, a chunk taken.
pub proof fn lemma_wf_is_kept(tee: TeeView, id: u64, chunk: Seq<u8>)
    requires
        tee.wf(),
    ensures
        TeeView::empty().wf(),
        tee.next_id < u64::MAX ==> tee.attach().wf(),
        id < tee.next_id ==> tee.detach(id).wf(),
        tee.reconcile().wf(),
        tee.fan_out(chunk).wf(),
        tee.close().wf(),
        tee.take(id).wf(),
{
}

/// Isolation: a tap holds exactly the chunks read since it was attached, whatever was read before.
pub proof fn lemma_new_tap_receives_only_later_chunks(tee: TeeView, chunks: Seq<Seq<u8>>)
    requires
        tee.wf(),
    ensures
        tee.attach().read_all(chunks).taps[tee.next_id].queue == chunks,
{
    lemma_tap_receives_every_chunk(tee.attach(), tee.next_id, chunks);
    assert(Seq::<Seq<u8>>::empty() + chunks =~= chunks);
}

/// Isolation, as the tap's owner sees it: a tap that is attached to a tee, whatever the tee
/// has read before, and read at once yields no byte; and read to its end after the reads that
/// yielded `chunks`, none of them empty, it yields exactly the bytes of those reads, in order.
/// No byte that was read before the tap was attached is ever among them.
pub proof fn lemma_new_tap_yields_only_later_bytes(tee: TeeView, chunks: Seq<Seq<u8>>)
    requires
        tee.wf(),
        forall|i: int| 0 <= i < chunks.len() ==> (#[trigger] chunks[i]).len() > 0,
    ensures
        ({
            let tap = TappedView { id: tee.next_id, unread: Seq::empty(), connected: true };
            &&& tap_drain(tap, tee.attach()).2 == Seq::<u8>::empty()
            &&& tap_drain(tap, tee.attach().read_all(chunks)).2 == chunks.flatten()
            &&& !tap_drain(tap, tee.attach().read_all(chunks)).3
            &&& tap_drain(tap, tee.attach().read_all(chunks).close()).2 == chunks.flatten()
            &&& tap_drain(tap, tee.attach().read_all(chunks).close()).3
        }),
{
    let tap = TappedView { id: tee.next_id, unread: Seq::empty(), connected: true };
    let later = tee.attach().read_all(chunks);
    lemma_new_tap_receives_only_later_chunks(tee, chunks);
    lemma_tap_receives_every_chunk(tee.attach(), tee.next_id, chunks);
    lemma_drain_yields_whole_queue(tap, later);
    lemma_drain_yields_whole_queue(tap, later.close());
    assert(tap.unread + chunks.flatten() =~= chunks.flatten());
}

/// Multi-tap: two taps attached at the same point hold the same chunks, all that are read from
/// then on.
pub proof fn lemma_taps_attached_together_receive_the_same(tee: TeeView, chunks: Seq<Seq<u8>>)
    requires
        tee.wf(),
        tee.next_id + 1 < u64::MAX,
    ensures
        tee.attach().attach().read_all(chunks).taps[tee.next_id].queue == chunks,
        tee.attach().attach().read_all(chunks).taps[(tee.next_id + 1) as u64].queue == chunks,
{
    let both = tee.attach().attach();
    lemma_tap_receives_every_chunk(both, tee.next_id, chunks);
    lemma_tap_receives_every_chunk(both, (tee.next_id + 1) as u64, chunks);
    assert(Seq::<Seq<u8>>::empty() + chunks =~= chunks);
}

/// Independence: a read on one tap changes nothing of what another tap holds.
pub proof fn lemma_tap_read_leaves_other_taps(
    tap: TappedView,
    tee: TeeView,
    buf: Seq<u8>,
    other: u64,
)
    requires
        other != tap.id,
    ensures
        tap_read(tap, tee, buf).1.taps.contains_key(other) == tee.taps.contains_key(other),
        tap_read(tap, tee, buf).1.taps[other] == tee.taps[other],
{
}

/// Independence: reading one tap to its end changes nothing of what another tap holds, so the
/// other still receives its whole stream when it is read afterwards.
pub proof fn lemma_tap_drain_leaves_other_taps(tap: TappedView, tee: TeeView, other: u64)
    requires
        other != tap.id,
    ensures
        tap_drain(tap, tee).1.taps.contains_key(other) == tee.taps.contains_key(other),
        tap_drain(tap, tee).1.taps[other] == tee.taps[other],
    decreases
        (if tee.has_chunk(tap.id) {
            tee.taps[tap.id].queue.len()
        } else {
            0
        }),
        tap.unread.len(),
{
    if tap.unread.len() > 0 {
        lemma_tap_drain_leaves_other_taps(
            TappedView { id: tap.id, unread: Seq::empty(), connected: tap.connected },
            tee,
            other,
        );
    } else if !tap.connected || tee.disconnected(tap.id) {
    } else if tee.has_chunk(tap.id) {
        if tee.taps[tap.id].queue[0].len() > 0 {
            lemma_tap_drain_leaves_other_taps(tap, tee.take(tap.id), other);
        }
    }
}

/// End of stream: once the channels are closed, a tap that is read to its end reaches the end.
/// It never waits for more, whether the source ended or failed.
pub proof fn lemma_closed_tap_reaches_the_end(tap: TappedView, tee: TeeView)
    requires
        !tee.taps.contains_key(tap.id) || !tee.taps[tap.id].open,
    ensures
        tap_drain(tap, tee).3,
    decreases
        (if tee.has_chunk(tap.id) {
            tee.taps[tap.id].queue.len()
        } else {
            0
        }),
        tap.unread.len(),
{
    if tap.unread.len() > 0 {
        lemma_closed_tap_reaches_the_end(
            TappedView { id: tap.id, unread: Seq::empty(), connected: tap.connected },
            tee,
        );
    } else if !tap.connected || tee.disconnected(tap.id) {
    } else if tee.has_chunk(tap.id) {
        if tee.taps[tap.id].queue[0].len() > 0 {
            lemma_closed_tap_reaches_the_end(tap, tee.take(tap.id));
        }
    }
}

/// What a tap yields when it is read to its end and no chunk that waits for it is empty: the
/// unread bytes of its current chunk, then every waiting chunk in order. The end is reached
/// exactly if the channel is closed.
pub proof fn lemma_drain_yields_whole_queue(tap: TappedView, tee: TeeView)
    requires
        tap.connected,
        tee.taps.contains_key(tap.id),
        forall|i: int| 0 <= i < tee.taps[tap.id].queue.len() ==> (#[trigger] tee.taps[tap.id].queue[i]).len() > 0,
    ensures
        tap_drain(tap, tee).2 == tap.unread + tee.taps[tap.id].queue.flatten(),
        tap_drain(tap, tee).3 == !tee.taps[tap.id].open,
        tap_drain(tap, tee).1.taps[tap.id].queue.len() == 0,
    decreases tee.taps[tap.id].queue.len(), tap.unread.len(),
{
    let queue = tee.taps[tap.id].queue;
    if tap.unread.len() > 0 {
        let emptied = TappedView { id: tap.id, unread: Seq::empty(), connected: tap.connected };
        lemma_drain_yields_whole_queue(emptied, tee);
        assert(tap.unread + (emptied.unread + queue.flatten()) =~= tap.unread + queue.flatten());
    } else if queue.len() > 0 {
        let rest = tee.take(tap.id);
        assert(rest.taps[tap.id].queue == queue.drop_first());
        assert forall|i: int| 0 <= i < rest.taps[tap.id].queue.len() implies (#[trigger] rest.taps[tap.id].queue[i]).len() > 0 by {
            assert(queue.drop_first()[i] == queue[i + 1]);
        }
        assert(queue[0].len() > 0);
        lemma_drain_yields_whole_queue(tap, rest);
        assert(queue[0] + (tap.unread + queue.drop_first().flatten()) =~= tap.unread
            + queue.flatten());
    } else {
        assert(tap.unread + queue.flatten() =~= Seq::<u8>::empty());
    }
}

/// What a tap yields when it is read to its end and an empty chunk waits for it: the unread bytes
/// of its current chunk, then the chunks that wait before the first empty one. The empty chunk
/// ends the stream and is taken too; what waits behind it stays.
pub proof fn lemma_drain_stops_at_empty_chunk(tap: TappedView, tee: TeeView, k: int)
    requires
        tap.connected,
        tee.taps.contains_key(tap.id),
        0 <= k < tee.taps[tap.id].queue.len(),
        tee.taps[tap.id].queue[k].len() == 0,
        forall|i: int| 0 <= i < k ==> (#[trigger] tee.taps[tap.id].queue[i]).len() > 0,
    ensures
        tap_drain(tap, tee).2 == tap.unread + tee.taps[tap.id].queue.take(k).flatten(),
        tap_drain(tap, tee).3,
        tap_drain(tap, tee).1.taps[tap.id].queue == tee.taps[tap.id].queue.skip(k + 1),
    decreases k, tap.unread.len(),
{
    let queue = tee.taps[tap.id].queue;
    if tap.unread.len() > 0 {
        let emptied = TappedView { id: tap.id, unread: Seq::empty(), connected: tap.connected };
        lemma_drain_stops_at_empty_chunk(emptied, tee, k);
        assert(tap.unread + (emptied.unread + queue.take(k).flatten()) =~= tap.unread
            + queue.take(k).flatten());
    } else if k == 0 {
        assert(queue.take(0) =~= Seq::<Seq<u8>>::empty());
        assert(tap.unread + queue.take(0).flatten() =~= Seq::<u8>::empty());
        assert(queue.drop_first() =~= queue.skip(1));
    } else {
        let rest = tee.take(tap.id);
        assert(rest.taps[tap.id].queue == queue.drop_first());
        assert(queue.drop_first()[k - 1] == queue[k]);
        assert forall|i: int| 0 <= i < k - 1 implies (#[trigger] rest.taps[tap.id].queue[i]).len() > 0 by {
            assert(queue.drop_first()[i] == queue[i + 1]);
        }
        assert(queue[0].len() > 0);
        lemma_drain_stops_at_empty_chunk(tap, rest, k - 1);
        assert(queue.take(k).drop_first() =~= queue.drop_first().take(k - 1));
        assert(queue.take(k).first() == queue[0]);
        assert(queue[0] + (tap.unread + queue.drop_first().take(k - 1).flatten()) =~= tap.unread
            + queue.take(k).flatten());
        assert(queue.drop_first().skip(k) =~= queue.skip(k + 1));
    }
}

/// From end to end: a tap that is attached before the first read and read to its end once the
/// tee is closed yields exactly the bytes that were read from the source, in the order in which
/// they were read, provided that no read yielded an empty chunk.
pub proof fn lemma_first_tap_yields_what_was_read(chunks: Seq<Seq<u8>>)
    requires
        forall|i: int| 0 <= i < chunks.len() ==> (#[trigger] chunks[i]).len() > 0,
    ensures
        ({
            let tap = TappedView { id: 0, unread: Seq::empty(), connected: true };
            let tee = TeeView::empty().attach().read_all(chunks).close();
            tap_drain(tap, tee).2 == chunks.flatten() && tap_drain(tap, tee).3
        }),
{
    let tap = TappedView { id: 0, unread: Seq::empty(), connected: true };
    let read = TeeView::empty().attach().read_all(chunks);
    lemma_new_tap_receives_only_later_chunks(TeeView::empty(), chunks);
    lemma_tap_receives_every_chunk(TeeView::empty().attach(), 0, chunks);
    lemma_drain_yields_whole_queue(tap, read.close());
    assert(tap.unread + chunks.flatten() =~= chunks.flatten());
}

/// From end to end, with the end of the source: where the reads that yielded `chunks`, none of
/// them empty, are followed by the read that yields none, a tap that was attached before the
/// first read yields exactly the bytes that were read, whether the tee is closed or not.
pub proof fn lemma_first_tap_yields_what_was_read_to_the_end(chunks: Seq<Seq<u8>>)
    requires
        forall|i: int| 0 <= i < chunks.len() ==> (#[trigger] chunks[i]).len() > 0,
    ensures
        ({
            let tap = TappedView { id: 0, unread: Seq::empty(), connected: true };
            let tee = TeeView::empty().attach().read_all(chunks.push(Seq::empty()));
            &&& tap_drain(tap, tee).2 == chunks.flatten()
            &&& tap_drain(tap, tee).3
            &&& tap_drain(tap, tee.close()).2 == chunks.flatten()
            &&& tap_drain(tap, tee.close()).3
        }),
{
    let tap = TappedView { id: 0, unread: Seq::empty(), connected: true };
    let all = chunks.push(Seq::empty());
    let tee = TeeView::empty().attach().read_all(all);
    lemma_new_tap_receives_only_later_chunks(TeeView::empty(), all);
    lemma_tap_receives_every_chunk(TeeView::empty().attach(), 0, all);
    assert(all[chunks.len() as int].len() == 0);
    assert forall|i: int| 0 <= i < chunks.len() implies (#[trigger] tee.taps[0].queue[i]).len()
        > 0 by {
        assert(all[i] == chunks[i]);
    }
    assert(all.take(chunks.len() as int) =~= chunks);
    lemma_drain_stops_at_empty_chunk(tap, tee, chunks.len() as int);
    lemma_drain_stops_at_empty_chunk(tap, tee.close(), chunks.len() as int);
    assert(tap.unread + chunks.flatten() =~= chunks.flatten());
}

} // verus!
