//! A convenience for creating a channel for fetching blocks.

use vstd::prelude::*;
use crate::fetch::{liveness_channel, FetchQueueReceiver, FetchQueueSender};
use crate::storage::BlockHeight;

verus! {

/// Creates the two ends of a queue for fetching blocks up to
/// `last_query_height`.
pub fn new(last_query_height: BlockHeight) -> (ends: (FetchQueueSender, FetchQueueReceiver))
    ensures
        ends.1.last_query_height() == last_query_height,
{
    let (fetch_send, fetch_recv) = liveness_channel();
    (
        FetchQueueSender { last_fetched: fetch_send },
        FetchQueueReceiver::over(fetch_recv, last_query_height),
    )
}

} // verus!
