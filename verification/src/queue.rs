//! The bounded hand-off queue between the directory walker and the lookup
//! stage.
//!
//! This is the library's model of the bounded channel: a first-in-first-out
//! queue with a fixed capacity whose send is refused while the queue is
//! full. The walker that drives it holds at most one cluster of its own
//! besides the queue's contents, so at most capacity + 1 clusters are ever
//! unconsumed in flight.

use crate::models::{AlbumCluster, AlbumClusterView};
use std::collections::VecDeque;
use vstd::prelude::*;

verus! {

/// The capacity of the walker's cluster channel.
pub const CLUSTER_QUEUE_CAPACITY: usize = 5;

/// A first-in-first-out queue of clusters with a fixed capacity.
#[derive(Debug)]
pub struct BoundedQueue {
    items: VecDeque<AlbumCluster>,
    capacity: usize,
}

impl BoundedQueue {
    /// The queued clusters, oldest first.
    pub closed spec fn contents(self) -> Seq<AlbumClusterView> {
        self.items@.map_values(|c: AlbumCluster| c@)
    }

    /// The fixed capacity the queue was created with.
    pub closed spec fn spec_capacity(self) -> usize {
        self.capacity
    }

    /// The queue never holds more clusters than its capacity.
    pub closed spec fn inv(self) -> bool {
        self.items@.len() <= self.capacity
    }

    /// An empty queue of the given capacity.
    pub fn new(capacity: usize) -> (q: Self)
        ensures
            q.inv(),
            q.spec_capacity() == capacity,
            q.contents() == Seq::<AlbumClusterView>::empty(),
    {
        let q = BoundedQueue { items: VecDeque::new(), capacity };
        proof {
            assert(q.contents() =~= Seq::<AlbumClusterView>::empty());
        }
        q
    }

    /// Number of clusters currently queued.
    pub fn len(&self) -> (n: usize)
        ensures
            n == self.contents().len(),
    {
        self.items.len()
    }

    /// The capacity the queue was created with.
    pub fn capacity(&self) -> (n: usize)
        ensures
            n == self.spec_capacity(),
    {
        self.capacity
    }

    /// Offers a cluster to the queue. A full queue refuses it unchanged —
    /// the caller keeps the cluster and must try again later, which is what
    /// bounds the number of clusters in flight.
    pub fn try_send(&mut self, cluster: AlbumCluster) -> (r: Result<(), AlbumCluster>)
        requires
            old(self).inv(),
        ensures
            final(self).inv(),
            final(self).spec_capacity() == old(self).spec_capacity(),
            old(self).contents().len() >= old(self).spec_capacity() ==> (r matches Err(c)
                && c@ == cluster@ && final(self).contents() == old(self).contents()),
            old(self).contents().len() < old(self).spec_capacity() ==> r is Ok
                && final(self).contents() == old(self).contents().push(cluster@),
    {
        if self.items.len() >= self.capacity {
            Err(cluster)
        } else {
            let ghost pre = self.items@;
            self.items.push_back(cluster);
            proof {
                assert(self.contents() =~= pre.map_values(|c: AlbumCluster| c@).push(
                    self.items@[pre.len() as int]@,
                ));
            }
            Ok(())
        }
    }

    /// Takes the oldest queued cluster, if any.
    pub fn pop_front(&mut self) -> (r: Option<AlbumCluster>)
        requires
            old(self).inv(),
        ensures
            final(self).inv(),
            final(self).spec_capacity() == old(self).spec_capacity(),
            old(self).contents().len() == 0 ==> r is None
                && final(self).contents() == old(self).contents(),
            old(self).contents().len() > 0 ==> (r matches Some(c) && c@ == old(self).contents()[0]
                && final(self).contents() == old(self).contents().drop_first()),
    {
        let ghost pre = self.items@;
        let r = self.items.pop_front();
        proof {
            if pre.len() > 0 {
                assert(self.contents() =~= pre.map_values(|c: AlbumCluster| c@).drop_first());
            }
        }
        r
    }
}

/// Backpressure bound: a well-formed queue holds at most its capacity, so
/// the walker — which holds at most the one cluster a full queue refused —
/// never has more than capacity + 1 clusters unconsumed in flight.
pub proof fn lemma_backpressure_bound(q: BoundedQueue)
    requires
        q.inv(),
    ensures
        q.contents().len() <= q.spec_capacity(),
{
}

} // verus!
