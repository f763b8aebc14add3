//! The queue between the stage that fetches entries and the stage that scans
//! them.
//!
//! The sending side puts entries into the cache of unscanned entries and tells
//! of each on a channel. The channel carries no work: it is there so that the
//! receiving side can see whether a sender is still alive.

use vstd::prelude::*;
use crate::storage::BlockHeight;
use crate::unscanned::{has_height, spec_insert, IndexedNoteEntry, Unscanned};

verus! {

/// The declaration of `flume::Sender`, the sending end of a channel. Nothing
/// is known of what is in it.
#[verifier::external_type_specification]
#[verifier::external_body]
#[verifier::reject_recursive_types(T)]
pub struct ExFlumeSender<T>(flume::Sender<T>);

/// The declaration of `flume::Receiver`, the receiving end of a channel.
/// Nothing is known of what is in it.
#[verifier::external_type_specification]
#[verifier::external_body]
#[verifier::reject_recursive_types(T)]
pub struct ExFlumeReceiver<T>(flume::Receiver<T>);

/// `flume::unbounded`: a new channel without a bound, with its one sender and
/// its one receiver. Nothing is claimed of either.
#[verifier::external_body]
pub(crate) fn liveness_channel() -> (ends: (flume::Sender<u64>, flume::Receiver<u64>)) {
    flume::unbounded()
}

/// `flume::Sender::send`: hands a height to the channel, which has no bound,
/// so that the call does not wait. Says whether the channel took it, which it
/// does unless every receiver is gone. Nothing is claimed of the answer.
#[verifier::external_body]
fn publish(sender: &flume::Sender<u64>, height: u64) -> (taken: bool) {
    sender.send(height).is_ok()
}

/// `flume::Receiver::sender_count`: the number of senders of the channel that
/// exist at the time of the call. Nothing is claimed of the number.
#[verifier::external_body]
fn live_senders(receiver: &flume::Receiver<u64>) -> (count: usize) {
    receiver.sender_count()
}

/// `flume::Sender::clone`: one more sender of the same channel. Nothing is
/// claimed of it.
#[verifier::external_body]
fn another_sender(sender: &flume::Sender<u64>) -> (copy: flume::Sender<u64>) {
    sender.clone()
}

/// A channel-like struct for "sending" newly fetched blocks to the scanning
/// algorithm. While it lives, the receiving side waits for more.
pub struct FetchQueueSender {
    pub(crate) last_fetched: flume::Sender<u64>,
}

/// A channel-like struct for "receiving" new fetched blocks for the scanning
/// algorithm. It pulls from the cache until the cache is empty; it then waits
/// until new entries appear in the cache or every sender has hung up.
pub struct FetchQueueReceiver {
    pub(crate) last_fetched: flume::Receiver<u64>,
    pub(crate) last_query_height: BlockHeight,
}

/// What one look at the queue gives.
#[derive(Debug, PartialEq, Eq)]
pub enum Fetched {
    /// The entry at the lowest position in the cache, which has left it.
    Entry(IndexedNoteEntry),
    /// The cache is empty and a sender is alive: more may come.
    Pending,
    /// The cache is empty and no sender is alive: the sequence has ended.
    Closed,
}

/// What a look at the queue gives, from what the cache gave up and whether a
/// sender was alive.
pub open spec fn spec_fetched(popped: Option<IndexedNoteEntry>, sender_alive: bool) -> Fetched {
    match popped {
        Some(entry) => Fetched::Entry(entry),
        None => if sender_alive {
            Fetched::Pending
        } else {
            Fetched::Closed
        },
    }
}

/// Decides what a look at the queue gives. An entry in hand is handed on
/// whether a sender lives or not; without one, the sequence ends as soon as no
/// sender is alive.
pub fn fetched(popped: Option<IndexedNoteEntry>, sender_alive: bool) -> (r: Fetched)
    ensures
        r == spec_fetched(popped, sender_alive),
{
    match popped {
        Some(entry) => Fetched::Entry(entry),
        None => if sender_alive {
            Fetched::Pending
        } else {
            Fetched::Closed
        },
    }
}

/// Whether the sending side is alive, from the number of senders that the
/// channel counts: it is closed when no sender remains.
pub open spec fn spec_alive(live_senders: usize) -> bool {
    live_senders > 0
}

/// Decides whether the sending side is alive, from the number of senders
/// that the channel counts.
pub fn alive(live_senders: usize) -> (r: bool)
    ensures
        r == spec_alive(live_senders),
{
    live_senders > 0
}

/// The height that is published for an entry: that of the block of the
/// entry.
pub fn published_height(data: &IndexedNoteEntry) -> (height: u64)
    ensures
        height == data.0.height.0,
{
    data.0.height.0
}

/// The cache after an entry was sent: with the entry in it where the channel
/// took the height of the entry, and as it was where the channel did not.
pub open spec fn spec_stored(s: Seq<IndexedNoteEntry>, data: IndexedNoteEntry, taken: bool) -> Seq<
    IndexedNoteEntry,
> {
    if taken {
        spec_insert(s, data)
    } else {
        s
    }
}

/// Puts an entry into the cache if the channel took its height, and says
/// whether it did. An entry that the channel refused is dropped.
pub fn stored(cache: &mut Unscanned, data: IndexedNoteEntry, taken: bool) -> (sent: bool)
    requires
        old(cache).wf(),
    ensures
        final(cache).wf(),
        sent == taken,
        final(cache)@ == spec_stored(old(cache)@, data, taken),
{
    if taken {
        cache.insert(data);
    }
    taken
}

/// The number of blocks between the lowest height in the cache and the last
/// height that the caller means to query, as far as a `usize` can tell it.
pub open spec fn spec_size_hint(last_query_height: BlockHeight, first_height: BlockHeight) -> usize {
    if last_query_height.0 <= first_height.0 {
        0
    } else if last_query_height.0 - first_height.0 > usize::MAX {
        usize::MAX
    } else {
        (last_query_height.0 - first_height.0) as usize
    }
}

impl FetchQueueReceiver {
    /// The last height that the caller means to query.
    pub closed spec fn spec_last_query_height(&self) -> BlockHeight {
        self.last_query_height
    }

    /// The last height that the caller means to query.
    #[verifier::when_used_as_spec(spec_last_query_height)]
    pub fn last_query_height(&self) -> (r: BlockHeight)
        ensures
            r == self.spec_last_query_height(),
    {
        self.last_query_height
    }

    /// The receiving end over a channel.
    pub(crate) fn over(last_fetched: flume::Receiver<u64>, last_query_height: BlockHeight) -> (r:
        FetchQueueReceiver)
        ensures
            r.spec_last_query_height() == last_query_height,
    {
        FetchQueueReceiver { last_fetched, last_query_height }
    }

    /// Check if a sender is alive: the channel is asked for the number of
    /// its senders, and [`alive`] decides on the number.
    fn sender_alive(&self) -> bool {
        alive(live_senders(&self.last_fetched))
    }

    /// Looks at the queue once. The entry at the lowest position leaves the
    /// cache if there is one. An empty cache stays as it is, and the answer
    /// says whether the sequence has ended: that is for the senders to
    /// decide, and [`fetched`] tells how.
    pub fn next(&mut self, cache: &mut Unscanned) -> (r: Fetched)
        requires
            old(cache).wf(),
        ensures
            final(cache).wf(),
            old(cache)@.len() > 0 ==> r == Fetched::Entry(old(cache)@[0]) && final(cache)@ == old(cache)@.drop_first(),
            old(cache)@.len() == 0 ==> (r == Fetched::Pending || r == Fetched::Closed) && final(cache)@ == old(cache)@,
            *final(self) == *old(self),
    {
        let alive = self.sender_alive();
        fetched(cache.pop_first(), alive)
    }

    /// An estimate of the number of entries that are yet to come, from the gap
    /// between the last height to query and the lowest height in the cache.
    /// It may be too high while the fetching catches up.
    pub fn size_hint(&self, cache: &Unscanned) -> (r: (usize, Option<usize>))
        requires
            cache.wf(),
        ensures
            r.0 == spec_size_hint(
                self.spec_last_query_height(),
                if cache@.len() > 0 {
                    cache@[0].0.height
                } else {
                    BlockHeight(0)
                },
            ),
            r.1 == Some(r.0),
    {
        let first = cache.first_height().0;
        let last = self.last_query_height.0;
        let size: usize = if last <= first {
            0
        } else if last - first > usize::MAX as u64 {
            usize::MAX
        } else {
            (last - first) as usize
        };
        (size, Some(size))
    }
}

impl FetchQueueSender {
    /// Whether the cache holds an entry of the block at `height`, so that the
    /// block need not be fetched again.
    pub fn contains_height(&self, cache: &Unscanned, height: u64) -> (r: bool)
        requires
            cache.wf(),
        ensures
            r == has_height(cache@, height),
    {
        cache.contains_height(height)
    }

    /// Tells the channel of the height of `data` and puts `data` into the
    /// cache. The call does not wait. Where the receiving side is gone the
    /// channel takes nothing: the cache is then left as it was, and the answer
    /// is `false`. The height handed to the channel is that of
    /// [`published_height`]. Whether the channel takes it is for the channel
    /// to say, and [`stored`] tells what follows from its answer.
    pub fn send(&mut self, cache: &mut Unscanned, data: IndexedNoteEntry) -> (sent: bool)
        requires
            old(cache).wf(),
        ensures
            final(cache).wf(),
            final(cache)@ == spec_stored(old(cache)@, data, sent),
    {
        let taken = publish(&self.last_fetched, published_height(&data));
        stored(cache, data, taken)
    }

    /// One more sender of the same queue.
    pub fn duplicate(&self) -> FetchQueueSender {
        FetchQueueSender { last_fetched: another_sender(&self.last_fetched) }
    }
}

} // verus!
