//! The public media sequence and its producing side.
//!
//! The display pipeline pulls paths one at a time from a [`MediaSequence`]:
//! either the deterministic variant, which filters and probes the walker's
//! output on demand, or the sampled variant, which receives locally
//! shuffled paths from a producer running [`populate`] on a background
//! worker.  The producer and consumer share nothing but the bounded
//! hand-off channel.

use crate::channel::recv_path;
use crate::options::Options;
use crate::probe::probe_path;
use crate::sampler::{HandoffOutcome, Sampler, WINDOW_CAPACITY};
use crate::walker::{DirEntryInfo, MediaWalker, candidate_paths, entry_passes};
use rand::RngExt;
use vstd::multiset::Multiset;
use vstd::prelude::*;

verus! {

broadcast use {vstd::seq_lib::group_to_multiset_ensures, vstd::multiset::group_multiset_axioms};

/// Relies on `rand::rng` and `RngExt::random_range`: the result is an
/// index drawn below `bound` from the thread's generator.  The call
/// panics on an empty range, so a positive bound is required; of the
/// value itself nothing is promised but its range.
#[verifier::external_body]
fn random_index(bound: usize) -> (i: usize)
    requires
        bound > 0,
    ensures
        i < bound,
{
    rand::rng().random_range(0..bound)
}

/// The deterministic media sequence: filtered walker output in traversal
/// order, each path probed for validity just before it is yielded, and
/// invalid paths skipped silently.
pub struct UnspecifiedMediaIterator {
    walker: MediaWalker,
    done: bool,
}

impl UnspecifiedMediaIterator {
    /// Well-formedness, inherited from the walker; the constructor
    /// establishes it and `next` preserves it.
    pub closed spec fn wf(self) -> bool {
        self.walker.wf()
    }

    /// Whether the sequence has ended: `next` has returned `None`.
    pub closed spec fn is_done(self) -> bool {
        self.done
    }

    /// Every candidate the underlying walker has yielded so far, in
    /// order: what this sequence yields is drawn from this log.
    pub closed spec fn walker_candidates(self) -> Seq<DirEntryInfo> {
        self.walker.candidates()
    }

    /// The hidden-entry flag this sequence was configured with.
    pub closed spec fn spec_include_hidden(self) -> bool {
        self.walker.spec_include_hidden()
    }

    /// The video flag this sequence was configured with.
    pub closed spec fn spec_include_video(self) -> bool {
        self.walker.spec_include_video()
    }

    /// The next valid media path in traversal order.  Every yielded path
    /// is the path of the candidate the walker yielded last — an entry
    /// that passed the hidden-entry policy and the classifier — after the
    /// validity probe accepted it; probe-rejected candidates are skipped
    /// transparently (they still extend the walker's candidate log).
    /// Once `None` is returned the sequence is done and every further
    /// call returns `None` again, without panicking.
    pub fn next(&mut self) -> (r: Option<String>)
        requires
            old(self).wf(),
        ensures
            final(self).wf(),
            old(self).is_done() ==> r is None && final(self).is_done(),
            r is None ==> final(self).is_done(),
            final(self).spec_include_hidden() == old(self).spec_include_hidden(),
            final(self).spec_include_video() == old(self).spec_include_video(),
            old(self).walker_candidates().is_prefix_of(final(self).walker_candidates()),
            r matches Some(p) ==> ({
                let yielded = final(self).walker_candidates();
                &&& yielded.len() > old(self).walker_candidates().len()
                &&& yielded.last().path == p
                &&& entry_passes(
                    yielded.last(),
                    old(self).spec_include_hidden(),
                    old(self).spec_include_video(),
                )
            }),
    {
        if self.done {
            return None;
        }
        loop
            invariant
                !self.done,
                !old(self).is_done(),
                self.walker.wf(),
                self.walker.spec_include_hidden() == old(self).spec_include_hidden(),
                self.walker.spec_include_video() == old(self).spec_include_video(),
                old(self).walker_candidates().is_prefix_of(self.walker.candidates()),
            decreases self.walker.dirs_left(), self.walker.buffered(),
        {
            let ghost prior = self.walker.candidates();
            let candidate = self.walker.next_candidate();
            match candidate {
                None => {
                    self.done = true;
                    return None;
                },
                Some(e) => {
                    proof {
                        assert(self.walker.candidates().subrange(
                            0,
                            old(self).walker_candidates().len() as int,
                        ) =~= old(self).walker_candidates());
                    }
                    if probe_path(&e.path) {
                        proof {
                            assert(self.walker.candidates().last() == e);
                        }
                        return Some(e.path);
                    }
                    // Invalid media: skipped transparently, never surfaced.
                },
            }
        }
    }
}

/// The deterministic Media Sequence over the configured roots: filtered
/// walker output in unspecified traversal order, probed lazily, no
/// background worker.
pub fn unspecified_media_iterator(opts: Options) -> (it: UnspecifiedMediaIterator)
    ensures
        it.wf(),
        !it.is_done(),
        it.spec_include_hidden() == opts.hidden,
        it.spec_include_video() == opts.video,
        it.walker_candidates() == Seq::<DirEntryInfo>::empty(),
{
    UnspecifiedMediaIterator { walker: MediaWalker::new(&opts), done: false }
}

/// The sampled media sequence's consuming half: it pulls validated paths
/// from the hand-off channel fed by a producer running [`populate`] on a
/// background worker.
pub struct RandomMediaIterator {
    rx: std::sync::mpsc::Receiver<String>,
    done: bool,
}

impl RandomMediaIterator {
    /// Whether the sequence has ended: `next` has returned `None`.
    pub closed spec fn is_done(self) -> bool {
        self.done
    }

    /// Wraps the receiving half of a hand-off channel whose sending half
    /// a producer is feeding.
    pub fn from_receiver(rx: std::sync::mpsc::Receiver<String>) -> (it: RandomMediaIterator)
        ensures
            !it.is_done(),
    {
        RandomMediaIterator { rx, done: false }
    }

    /// The next path the producer handed over.  Blocks only until the
    /// producer has something to offer or signals completion by closing
    /// the channel; after `None` every further call returns `None` again,
    /// without panicking.
    pub fn next(&mut self) -> (r: Option<String>)
        ensures
            old(self).is_done() ==> r is None && final(self).is_done(),
            r is None ==> final(self).is_done(),
    {
        if self.done {
            return None;
        }
        let received = recv_path(&self.rx);
        match received {
            Some(p) => Some(p),
            None => {
                self.done = true;
                None
            },
        }
    }
}

/// The Media Sequence, the one interface the display pipeline consumes:
/// `next()` yields validated media paths one at a time and returns `None`
/// permanently once discovery is complete.  Single pass; not restartable.
pub enum MediaSequence {
    /// Filtered traversal order, fully demand-driven.
    Unspecified(UnspecifiedMediaIterator),
    /// Locally shuffled order from the streaming sampler's producer.
    Random(RandomMediaIterator),
}

impl MediaSequence {
    /// Well-formedness of the carried variant.
    pub closed spec fn wf(self) -> bool {
        match self {
            MediaSequence::Unspecified(it) => it.wf(),
            MediaSequence::Random(_) => true,
        }
    }

    /// Whether the sequence has ended: `next` has returned `None`.
    pub closed spec fn is_done(self) -> bool {
        match self {
            MediaSequence::Unspecified(it) => it.is_done(),
            MediaSequence::Random(it) => it.is_done(),
        }
    }

    /// The next media path, or `None` exactly when discovery is complete
    /// and nothing remains.  After `None` every further call returns
    /// `None` again, without panicking.
    pub fn next(&mut self) -> (r: Option<String>)
        requires
            old(self).wf(),
        ensures
            final(self).wf(),
            old(self).is_done() ==> r is None && final(self).is_done(),
            r is None ==> final(self).is_done(),
    {
        match self {
            MediaSequence::Unspecified(it) => it.next(),
            MediaSequence::Random(it) => it.next(),
        }
    }
}

/// Why the producer stopped.
#[derive(Clone, Copy, Debug, PartialEq, Eq, Structural)]
pub enum ProducerEnd {
    /// The tree was exhausted and every remaining candidate was drained.
    Exhausted,
    /// The consumer dropped its end; the producer stopped at once.
    ConsumerGone,
}

/// Draws candidates at random until one passes the probe — it is parked
/// in the reserved slot — or the window empties.  At least one candidate
/// leaves the window either way.  It is called only once the window has
/// filled past its capacity (or during the final drain), so it makes no
/// premature draw.
fn draw_valid(sampler: &mut Sampler)
    requires
        old(sampler).inv(),
        old(sampler).reserved_path() is None,
        old(sampler).window_size() >= 1,
        old(sampler).accepted_log().len() > WINDOW_CAPACITY || old(sampler).drain_started(),
    ensures
        final(sampler).inv(),
        final(sampler).window_size() < old(sampler).window_size(),
        final(sampler).accepted_log() == old(sampler).accepted_log(),
        final(sampler).delivered_log() == old(sampler).delivered_log(),
        final(sampler).drain_started() == old(sampler).drain_started(),
        final(sampler).early_draws() == old(sampler).early_draws(),
{
    while sampler.window_len() > 0
        invariant_except_break
            sampler.reserved_path() is None,
        invariant
            sampler.inv(),
            sampler.window_size() <= old(sampler).window_size(),
            sampler.accepted_log() == old(sampler).accepted_log(),
            sampler.delivered_log() == old(sampler).delivered_log(),
            sampler.accepted_log().len() > WINDOW_CAPACITY || sampler.drain_started(),
            sampler.drain_started() == old(sampler).drain_started(),
            sampler.early_draws() == old(sampler).early_draws(),
        ensures
            sampler.inv(),
            sampler.window_size() < old(sampler).window_size() || sampler.window_size() == 0,
            sampler.accepted_log() == old(sampler).accepted_log(),
            sampler.delivered_log() == old(sampler).delivered_log(),
            sampler.drain_started() == old(sampler).drain_started(),
            sampler.early_draws() == old(sampler).early_draws(),
        decreases sampler.window_size(),
    {
        let i = random_index(sampler.window_len());
        let p = sampler.draw(i);
        if probe_path(&p) {
            sampler.hold(p);
            break;
        } else {
            sampler.reject(p);
        }
    }
}

/// The producing side of the sampled sequence: pulls candidates from the
/// walker into the sampling window, draws and probes once the window
/// overflows, and hands validated paths to the consumer under the
/// reserved-slot protocol.  Everything it accepts comes from the walker:
/// the sampler's accepted log never exceeds, and on a completed run
/// equals, the paths the walker yielded during the call.  It stops as
/// soon as a hand-off reports the consumer gone; when it reports the
/// tree exhausted instead, the window and the reserved slot have been
/// fully drained, so by the sampler's accounting laws every yielded
/// candidate was either delivered or probe-rejected, each exactly once.
/// The window-fill delay holds throughout: outside the final drain, no
/// draw was made while at most `W` candidates had been accepted.
pub fn run_producer(walker: &mut MediaWalker, tx: &std::sync::mpsc::SyncSender<String>) -> (r: (
    ProducerEnd,
    Sampler,
))
    requires
        old(walker).wf(),
    ensures
        final(walker).wf(),
        r.1.inv(),
        r.1.early_draws() == 0,
        old(walker).candidates().is_prefix_of(final(walker).candidates()),
        r.1.accepted_log().subset_of(
            candidate_paths(
                final(walker).candidates().skip(old(walker).candidates().len() as int),
            ).to_multiset(),
        ),
        r.0 == ProducerEnd::Exhausted ==> r.1.window_size() == 0 && r.1.reserved_path() is None
            && final(walker).finished() && r.1.accepted_log() == candidate_paths(
            final(walker).candidates().skip(old(walker).candidates().len() as int),
        ).to_multiset(),
{
    let ghost start = old(walker).candidates().len() as int;
    let mut sampler = Sampler::new();
    proof {
        assert(candidate_paths(walker.candidates().skip(start)) =~= Seq::<Seq<char>>::empty());
        assert(candidate_paths(walker.candidates().skip(start)).to_multiset() =~= Multiset::<
            Seq<char>,
        >::empty());
    }
    loop
        invariant
            walker.wf(),
            sampler.inv(),
            sampler.window_size() <= WINDOW_CAPACITY,
            !sampler.drain_started(),
            sampler.early_draws() == 0,
            old(walker).candidates().is_prefix_of(walker.candidates()),
            start == old(walker).candidates().len(),
            sampler.accepted_log() == candidate_paths(walker.candidates().skip(start)).to_multiset(),
        ensures
            walker.wf(),
            sampler.inv(),
            walker.finished(),
            !sampler.drain_started(),
            sampler.early_draws() == 0,
            old(walker).candidates().is_prefix_of(walker.candidates()),
            sampler.accepted_log() == candidate_paths(walker.candidates().skip(start)).to_multiset(),
        decreases walker.dirs_left(), walker.buffered(),
    {
        let ghost prior = walker.candidates();
        let candidate = walker.next_candidate();
        match candidate {
            None => {
                break;
            },
            Some(e) => {
                proof {
                    lemma_prefix_chain(old(walker).candidates(), prior, e);
                    assert(walker.candidates().skip(start) =~= prior.skip(start).push(e));
                    assert(candidate_paths(prior.skip(start).push(e)) =~= candidate_paths(
                        prior.skip(start),
                    ).push(e.path@));
                }
                // A validated item is parked and the window is full: hand
                // the parked one over first — blocking until the consumer
                // makes room — so the window and the reserved slot never
                // hold more than W + 1 candidates together.
                if sampler.has_reserved() && sampler.window_len() >= WINDOW_CAPACITY {
                    if !sampler.offer_blocking(tx) {
                        proof {
                            lemma_dropped_candidate(sampler.accepted_log(), e.path@);
                        }
                        return (ProducerEnd::ConsumerGone, sampler);
                    }
                }
                sampler.accept(e.path);
                if sampler.window_len() > WINDOW_CAPACITY {
                    proof {
                        crate::sampler::lemma_accepted_covers_window(sampler);
                    }
                    draw_valid(&mut sampler);
                    if sampler.has_reserved() {
                        let outcome = sampler.offer(tx);
                        if outcome == HandoffOutcome::ConsumerGone {
                            return (ProducerEnd::ConsumerGone, sampler);
                        }
                    }
                }
            },
        }
    }
    // The walker is exhausted: drain the reserved slot and the window.
    sampler.begin_drain();
    if sampler.has_reserved() {
        if !sampler.offer_blocking(tx) {
            return (ProducerEnd::ConsumerGone, sampler);
        }
    }
    while sampler.window_len() > 0
        invariant
            sampler.inv(),
            sampler.reserved_path() is None,
            sampler.drain_started(),
            sampler.early_draws() == 0,
            walker.wf(),
            walker.finished(),
            old(walker).candidates().is_prefix_of(walker.candidates()),
            start == old(walker).candidates().len(),
            sampler.accepted_log() == candidate_paths(walker.candidates().skip(start)).to_multiset(),
        decreases sampler.window_size(),
    {
        let i = random_index(sampler.window_len());
        let p = sampler.draw(i);
        if probe_path(&p) {
            sampler.hold(p);
            if !sampler.offer_blocking(tx) {
                return (ProducerEnd::ConsumerGone, sampler);
            }
        } else {
            sampler.reject(p);
        }
    }
    (ProducerEnd::Exhausted, sampler)
}

/// A prefix of a sequence is still a prefix after the sequence grows.
proof fn lemma_prefix_chain(a: Seq<DirEntryInfo>, b: Seq<DirEntryInfo>, e: DirEntryInfo)
    requires
        a.is_prefix_of(b),
    ensures
        a.is_prefix_of(b.push(e)),
{
    assert(b.push(e).subrange(0, a.len() as int) =~= b.subrange(0, a.len() as int));
}

/// A multiset stays below itself with one more element added.
proof fn lemma_dropped_candidate(m: Multiset<Seq<char>>, p: Seq<char>)
    ensures
        m.subset_of(m.insert(p)),
{
    broadcast use vstd::multiset::group_multiset_axioms;

}

/// Runs the whole producing side over the configured roots: walk, sample,
/// probe and hand off, until the tree is exhausted or the consumer goes
/// away.  When the run completes, the returned sampler's accounting shows
/// every accepted candidate as either delivered or probe-rejected, each
/// exactly once.  The sending half of the hand-off channel is dropped on
/// return, which closes the sequence for the consumer.
pub fn populate(opts: Options, tx: std::sync::mpsc::SyncSender<String>) -> (r: (
    ProducerEnd,
    Sampler,
))
    ensures
        r.1.inv(),
        r.1.early_draws() == 0,
        r.0 == ProducerEnd::Exhausted ==> r.1.window_size() == 0 && r.1.reserved_path() is None
            && r.1.accepted_log() == r.1.delivered_log().add(r.1.rejected_log()),
{
    let mut walker = MediaWalker::new(&opts);
    let result = run_producer(&mut walker, &tx);
    proof {
        if result.0 == ProducerEnd::Exhausted {
            crate::sampler::lemma_drained_accounts_for_all(result.1);
        }
    }
    result
}

} // verus!
