use vstd::prelude::*;
use vstd::multiset::Multiset;
use crate::probe::ProbeResult;

verus! {

broadcast use vstd::seq_lib::group_to_multiset_ensures;

/// The URLs of a batch of results, in order.
pub open spec fn urls_of(results: Seq<ProbeResult>) -> Seq<Seq<char>> {
    results.map_values(|r: ProbeResult| r.url@)
}

pub open spec fn views_of(urls: Seq<String>) -> Seq<Seq<char>> {
    urls.map_values(|u: String| u@)
}

/// Why a cycle's results could not be gathered. Either points to a defect in
/// the caller, not to a network condition.
#[derive(Debug, PartialEq, Eq, Structural)]
pub enum CollectError {
    /// A result arrived for a URL that was not, or no longer, awaited.
    UnexpectedUrl,
    /// The cycle was closed while results were still awaited.
    MissingResults,
}

/// Gathers the results of one cycle, delivered in any order, and hands them
/// over once there is exactly one for each URL of the cycle.
pub struct CycleCollector {
    expected: Ghost<Seq<Seq<char>>>,
    pending: Vec<String>,
    received: Vec<ProbeResult>,
}

impl CycleCollector {
    /// The URLs of the cycle, as given.
    pub closed spec fn expected(&self) -> Seq<Seq<char>> {
        self.expected@
    }

    /// The URLs whose result has not arrived yet.
    pub closed spec fn pending(&self) -> Multiset<Seq<char>> {
        views_of(self.pending@).to_multiset()
    }

    /// The results accepted so far, in order of arrival.
    pub closed spec fn received(&self) -> Seq<ProbeResult> {
        self.received@
    }

    pub closed spec fn wf(&self) -> bool {
        urls_of(self.received@).to_multiset().add(self.pending()) == self.expected@.to_multiset()
    }

    /// A collector for a cycle over `urls`; it is complete at once when there
    /// are none.
    pub fn new(urls: &Vec<String>) -> (c: CycleCollector)
        ensures
            c.wf(),
            c.expected() == views_of(urls@),
            c.pending() == views_of(urls@).to_multiset(),
            c.pending().len() == urls@.len(),
            c.received() == Seq::<ProbeResult>::empty(),
    {
        let pending = urls.clone();
        let received: Vec<ProbeResult> = Vec::new();
        proof {
            assert(urls_of(received@) =~= Seq::<Seq<char>>::empty());
            assert(pending@ =~= urls@);
            assert(urls_of(received@).to_multiset() =~= Multiset::empty());
            assert(Multiset::<Seq<char>>::empty().add(views_of(pending@).to_multiset())
                =~= views_of(pending@).to_multiset());
        }
        CycleCollector { expected: Ghost(views_of(urls@)), pending, received }
    }

    /// Whether every awaited result has arrived.
    pub fn is_complete(&self) -> (r: bool)
        ensures
            r == (self.pending().len() == 0),
    {
        self.pending.len() == 0
    }

    /// Takes one delivered result. It is refused, and the collector left as
    /// it was, when its URL is not awaited.
    pub fn accept(&mut self, r: ProbeResult) -> (res: Result<(), CollectError>)
        requires
            old(self).wf(),
        ensures
            final(self).wf(),
            final(self).expected() == old(self).expected(),
            res is Ok <==> old(self).pending().contains(r.url@),
            res is Ok ==> final(self).received() == old(self).received().push(r),
            res is Ok ==> final(self).pending() == old(self).pending().remove(r.url@),
            res is Err ==> res == Err::<(), CollectError>(CollectError::UnexpectedUrl),
            res is Err ==> final(self).received() == old(self).received(),
            res is Err ==> final(self).pending() == old(self).pending(),
    {
        let n = self.pending.len();
        let mut i: usize = 0;
        while i < n
            invariant
                n == self.pending@.len(),
                i <= n,
                forall|k: int| 0 <= k < i ==> self.pending@[k]@ != r.url@,
            ensures
                i <= n,
                i < n ==> self.pending@[i as int]@ == r.url@,
                forall|k: int| 0 <= k < i ==> self.pending@[k]@ != r.url@,
            decreases n - i,
        {
            if self.pending[i] == r.url {
                break;
            }
            i = i + 1;
        }
        if i == n {
            proof {
                let v = views_of(self.pending@);
                assert(!v.contains(r.url@)) by {
                    if v.contains(r.url@) {
                        let k = choose|k: int| 0 <= k < v.len() && v[k] == r.url@;
                        assert(self.pending@[k]@ == r.url@);
                    }
                }
            }
            return Err(CollectError::UnexpectedUrl);
        }
        let ghost old_pending = self.pending@;
        let ghost old_received = self.received@;
        let ghost u = r.url@;
        self.pending.remove(i);
        self.received.push(r);
        proof {
            let v = views_of(old_pending);
            assert(v[i as int] == u);
            assert(views_of(self.pending@) =~= v.remove(i as int));
            vstd::seq_lib::to_multiset_remove(v, i as int);
            assert(urls_of(self.received@) =~= urls_of(old_received).push(u));
            assert(v.to_multiset().count(u) > 0);
            assert(urls_of(self.received@).to_multiset().add(self.pending()) =~= urls_of(
                old_received,
            ).to_multiset().add(v.to_multiset()));
        }
        Ok(())
    }

    /// Ends the cycle: the batch of results when every awaited one has
    /// arrived, with exactly one result for each URL of the cycle (counting
    /// repeated URLs), in order of arrival.
    pub fn finish(self) -> (res: Result<Vec<ProbeResult>, CollectError>)
        requires
            self.wf(),
        ensures
            res is Ok <==> self.pending().len() == 0,
            res is Ok ==> res->Ok_0@ == self.received(),
            res is Ok ==> urls_of(res->Ok_0@).to_multiset() == self.expected().to_multiset(),
            res is Ok ==> res->Ok_0@.len() == self.expected().len(),
            res is Err ==> res == Err::<Vec<ProbeResult>, CollectError>(CollectError::MissingResults),
    {
        if self.pending.len() == 0 {
            proof {
                assert(views_of(self.pending@) =~= Seq::<Seq<char>>::empty());
                assert(urls_of(self.received@).to_multiset().add(Multiset::empty())
                    =~= urls_of(self.received@).to_multiset());
                assert(urls_of(self.received@).to_multiset().len() == urls_of(self.received@).len());
            }
            Ok(self.received)
        } else {
            Err(CollectError::MissingResults)
        }
    }
    /// A cycle over no URL awaits nothing from the start and hands over an
    /// empty batch.
    pub proof fn lemma_empty_cycle(&self)
        requires
            self.wf(),
            self.expected().len() == 0,
        ensures
            self.pending().len() == 0,
            self.received().len() == 0,
    {
        let r = urls_of(self.received@).to_multiset();
        assert(self.expected@.to_multiset().len() == 0);
        assert(r.add(self.pending()).len() == r.len() + self.pending().len());
        assert(r.len() == urls_of(self.received@).len());
    }
}

} // verus!
