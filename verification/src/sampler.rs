//! The streaming sampler: a bounded window of candidates from which items
//! are drawn at a caller-chosen index, validated, and handed to the
//! consumer through the bounded channel.
//!
//! The sampler approximates a uniform-random ordering over a stream of
//! candidates without buffering the stream: candidates are appended to a
//! window of capacity [`WINDOW_CAPACITY`], and once the window overflows
//! one is drawn at random and removed in O(1) by swapping with the last
//! element (order is deliberately not preserved).  A drawn, validated
//! candidate that the consumer cannot take yet is parked in a single
//! reserved slot rather than discarded, which bounds memory without
//! losing validated items.
//!
//! Ghost multiset logs record every candidate ever accepted, delivered and
//! rejected; the sampler's invariant accounts for each accepted candidate
//! exactly once, which yields the memory-bound, membership and
//! no-duplication laws at the end of this module.  A ghost phase marker
//! and a counter of premature draws let a producer prove the window-fill
//! delay: outside the final drain, no draw before the window has filled
//! past its capacity.

use crate::channel::{SendAttempt, send_path, try_send_path};
use vstd::multiset::Multiset;
use vstd::prelude::*;

verus! {

broadcast use {vstd::seq_lib::group_to_multiset_ensures, vstd::multiset::group_multiset_axioms};

/// The capacity `W` of the sampling window.
pub const WINDOW_CAPACITY: usize = 10;

/// Removing a sequence element by swapping the last element into its place
/// removes exactly one occurrence of it from the sequence's multiset.
proof fn lemma_swap_remove_to_multiset<A>(s: Seq<A>, i: int)
    requires
        0 <= i < s.len(),
    ensures
        s.update(i, s.last()).drop_last().to_multiset() == s.to_multiset().remove(s[i]),
{
    let u = s.update(i, s.last());
    assert(u.to_multiset() == s.to_multiset().insert(s.last()).remove(s[i]));
    assert(u.drop_last() =~= u.remove(u.len() - 1));
    assert(u.remove(u.len() - 1).to_multiset() == u.to_multiset().remove(u[u.len() - 1]));
    assert(u[u.len() - 1] == s.last());
    assert(s.to_multiset().insert(s.last()).remove(s[i]).remove(s.last()) =~= s.to_multiset().remove(
        s[i],
    ));
}

/// The streaming sampler's whole state: the window of candidates awaiting
/// a draw, the reserved slot, and ghost logs of everything that ever
/// passed through.
pub struct Sampler {
    /// Candidates awaiting a draw.
    window: Vec<String>,
    /// A drawn, validated candidate the consumer could not take yet.
    reserved: Option<String>,
    /// Ghost log: every candidate accepted into the sampler.
    accepted: Ghost<Multiset<Seq<char>>>,
    /// Ghost log: every candidate handed to the consumer.
    delivered: Ghost<Multiset<Seq<char>>>,
    /// Ghost log: every drawn candidate discarded as invalid.
    rejected: Ghost<Multiset<Seq<char>>>,
    /// Ghost flag: the stream of candidates has ended and the final drain
    /// has begun.
    draining: Ghost<bool>,
    /// Ghost count of draws made before the window had ever filled past
    /// its capacity, the final drain aside.
    early_draws: Ghost<nat>,
}

impl Sampler {
    /// The multiset of paths currently in the window.
    pub closed spec fn windowed(self) -> Multiset<Seq<char>> {
        self.window@.map_values(|p: String| p@).to_multiset()
    }

    /// How many candidates the window holds.
    pub closed spec fn window_size(self) -> nat {
        self.window@.len()
    }

    /// The reserved candidate's path, if one is parked.
    pub closed spec fn reserved_path(self) -> Option<Seq<char>> {
        match self.reserved {
            Some(p) => Some(p@),
            None => None,
        }
    }

    /// How many candidates the reserved slot holds: one or none.
    pub open spec fn reserved_count(self) -> nat {
        if self.reserved_path() is Some {
            1
        } else {
            0
        }
    }

    /// What the reserved slot holds, as a multiset of at most one path.
    pub closed spec fn reserved_contents(self) -> Multiset<Seq<char>> {
        match self.reserved {
            Some(p) => Multiset::singleton(p@),
            None => Multiset::empty(),
        }
    }

    /// Every candidate ever accepted into the sampler.
    pub closed spec fn accepted_log(self) -> Multiset<Seq<char>> {
        self.accepted@
    }

    /// Every candidate ever handed to the consumer.
    pub closed spec fn delivered_log(self) -> Multiset<Seq<char>> {
        self.delivered@
    }

    /// Every drawn candidate ever discarded as invalid.
    pub closed spec fn rejected_log(self) -> Multiset<Seq<char>> {
        self.rejected@
    }

    /// Whether the final drain has begun: no further candidates will be
    /// accepted.
    pub closed spec fn drain_started(self) -> bool {
        self.draining@
    }

    /// How many draws were made while at most `W` candidates had been
    /// accepted, the final drain aside.  A producer honouring the
    /// window-fill delay keeps this at zero.
    pub closed spec fn early_draws(self) -> nat {
        self.early_draws@
    }

    /// The sampler's invariant: every accepted candidate sits in exactly
    /// one place — the window, the reserved slot, the delivered log or the
    /// rejected log — and the window and the reserved slot together hold
    /// at most `W + 1` candidates.
    pub closed spec fn inv(self) -> bool {
        &&& self.accepted@ == self.windowed().add(self.reserved_contents()).add(self.delivered@).add(
            self.rejected@,
        )
        &&& self.window@.len() + self.reserved_count() <= WINDOW_CAPACITY + 1
    }

    /// The invariant while one drawn candidate with path `p` is in the
    /// caller's hands, between a draw and the decision over it: with the
    /// drawn candidate counted, the memory bound still stands.
    pub closed spec fn inv_holding(self, p: Seq<char>) -> bool {
        &&& self.accepted@ == self.windowed().insert(p).add(self.reserved_contents()).add(
            self.delivered@,
        ).add(self.rejected@)
        &&& self.window@.len() + self.reserved_count() <= WINDOW_CAPACITY
    }

    /// A fresh sampler: empty window, nothing reserved, empty logs.
    pub fn new() -> (s: Sampler)
        ensures
            s.inv(),
            s.window_size() == 0,
            s.reserved_path() is None,
            s.accepted_log() == Multiset::<Seq<char>>::empty(),
            s.delivered_log() == Multiset::<Seq<char>>::empty(),
            s.rejected_log() == Multiset::<Seq<char>>::empty(),
            !s.drain_started(),
            s.early_draws() == 0,
    {
        let s = Sampler {
            window: Vec::new(),
            reserved: None,
            accepted: Ghost(Multiset::empty()),
            delivered: Ghost(Multiset::empty()),
            rejected: Ghost(Multiset::empty()),
            draining: Ghost(false),
            early_draws: Ghost(0),
        };
        proof {
            assert(s.window@.map_values(|p: String| p@) =~= Seq::<Seq<char>>::empty());
            assert(s.windowed().len() == 0);
            assert(s.windowed() =~= Multiset::<Seq<char>>::empty());
            assert(s.accepted@ =~= s.windowed().add(s.reserved_contents()).add(s.delivered@).add(
                s.rejected@,
            ));
        }
        s
    }

    /// How many candidates the window holds right now.
    pub fn window_len(&self) -> (n: usize)
        ensures
            n == self.window_size(),
    {
        self.window.len()
    }

    /// Whether a validated candidate is parked in the reserved slot.
    pub fn has_reserved(&self) -> (b: bool)
        ensures
            b == (self.reserved_path() is Some),
    {
        self.reserved.is_some()
    }

    /// Appends a discovered candidate to the window.  The window and the
    /// reserved slot together must still have room for it.
    pub fn accept(&mut self, path: String)
        requires
            old(self).inv(),
            old(self).window_size() + old(self).reserved_count() <= WINDOW_CAPACITY,
        ensures
            final(self).inv(),
            final(self).window_size() == old(self).window_size() + 1,
            final(self).windowed() == old(self).windowed().insert(path@),
            final(self).accepted_log() == old(self).accepted_log().insert(path@),
            final(self).delivered_log() == old(self).delivered_log(),
            final(self).rejected_log() == old(self).rejected_log(),
            final(self).reserved_path() == old(self).reserved_path(),
            final(self).reserved_count() == old(self).reserved_count(),
            final(self).drain_started() == old(self).drain_started(),
            final(self).early_draws() == old(self).early_draws(),
    {
        let ghost pv = path@;
        let ghost old_mapped = self.window@.map_values(|p: String| p@);
        self.window.push(path);
        proof {
            self.accepted@ = self.accepted@.insert(pv);
            assert(self.window@.map_values(|p: String| p@) =~= old_mapped.push(pv));
            assert(self.windowed() == old(self).windowed().insert(pv));
            assert(self.accepted@ =~= self.windowed().add(self.reserved_contents()).add(
                self.delivered@,
            ).add(self.rejected@));
        }
    }

    /// Removes and returns the candidate at `index`, swapping the last
    /// window element into its place — O(1) removal that deliberately does
    /// not preserve order.  Until the caller rejects, parks or delivers
    /// the result, the sampler is mid-draw.
    pub fn draw(&mut self, index: usize) -> (p: String)
        requires
            old(self).inv(),
            index < old(self).window_size(),
        ensures
            final(self).inv_holding(p@),
            old(self).windowed().count(p@) > 0,
            final(self).windowed() == old(self).windowed().remove(p@),
            final(self).window_size() == old(self).window_size() - 1,
            final(self).accepted_log() == old(self).accepted_log(),
            final(self).delivered_log() == old(self).delivered_log(),
            final(self).rejected_log() == old(self).rejected_log(),
            final(self).reserved_path() == old(self).reserved_path(),
            final(self).drain_started() == old(self).drain_started(),
            final(self).early_draws() == old(self).early_draws() + (
            if !old(self).drain_started() && old(self).accepted_log().len() <= WINDOW_CAPACITY {
                1nat
            } else {
                0nat
            }),
    {
        let ghost old_mapped = self.window@.map_values(|p: String| p@);
        proof {
            if !self.draining@ && self.accepted@.len() <= WINDOW_CAPACITY {
                self.early_draws@ = self.early_draws@ + 1nat;
            }
        }
        let p = self.window.swap_remove(index);
        proof {
            let ghost new_mapped = self.window@.map_values(|q: String| q@);
            assert(new_mapped =~= old_mapped.update(index as int, old_mapped.last()).drop_last());
            lemma_swap_remove_to_multiset(old_mapped, index as int);
            assert(old_mapped[index as int] == p@);
            assert(self.windowed() == old(self).windowed().remove(p@));
            assert(old(self).windowed().count(p@) > 0) by {
                assert(old_mapped.contains(p@));
            }
            assert(old(self).windowed().remove(p@).insert(p@) =~= old(self).windowed());
            assert(self.accepted@ =~= self.windowed().insert(p@).add(self.reserved_contents()).add(
                self.delivered@,
            ).add(self.rejected@));
        }
        p
    }

    /// Discards a drawn candidate that failed validation.
    pub fn reject(&mut self, path: String)
        requires
            old(self).inv_holding(path@),
        ensures
            final(self).inv(),
            final(self).rejected_log() == old(self).rejected_log().insert(path@),
            final(self).windowed() == old(self).windowed(),
            final(self).window_size() == old(self).window_size(),
            final(self).accepted_log() == old(self).accepted_log(),
            final(self).delivered_log() == old(self).delivered_log(),
            final(self).reserved_path() == old(self).reserved_path(),
            final(self).drain_started() == old(self).drain_started(),
            final(self).early_draws() == old(self).early_draws(),
    {
        proof {
            self.rejected@ = self.rejected@.insert(path@);
            assert(self.accepted@ =~= self.windowed().add(self.reserved_contents()).add(
                self.delivered@,
            ).add(self.rejected@));
        }
    }

    /// Parks a drawn, validated candidate in the reserved slot.
    pub fn hold(&mut self, path: String)
        requires
            old(self).inv_holding(path@),
            old(self).reserved_path() is None,
        ensures
            final(self).inv(),
            final(self).reserved_path() == Some(path@),
            final(self).windowed() == old(self).windowed(),
            final(self).window_size() == old(self).window_size(),
            final(self).accepted_log() == old(self).accepted_log(),
            final(self).delivered_log() == old(self).delivered_log(),
            final(self).rejected_log() == old(self).rejected_log(),
            final(self).drain_started() == old(self).drain_started(),
            final(self).early_draws() == old(self).early_draws(),
    {
        self.reserved = Some(path);
        proof {
            assert(self.accepted@ =~= self.windowed().add(self.reserved_contents()).add(
                self.delivered@,
            ).add(self.rejected@));
        }
    }

    /// Tries to hand the reserved candidate to the consumer without
    /// blocking.  On a full channel the candidate stays parked for a
    /// later retry; once the consumer is gone the caller should stop.
    pub fn offer(&mut self, tx: &std::sync::mpsc::SyncSender<String>) -> (r: HandoffOutcome)
        requires
            old(self).inv(),
            old(self).reserved_path() is Some,
        ensures
            final(self).inv(),
            final(self).windowed() == old(self).windowed(),
            final(self).window_size() == old(self).window_size(),
            final(self).accepted_log() == old(self).accepted_log(),
            final(self).rejected_log() == old(self).rejected_log(),
            final(self).drain_started() == old(self).drain_started(),
            final(self).early_draws() == old(self).early_draws(),
            r == HandoffOutcome::Delivered ==> final(self).reserved_path() is None && final(self).delivered_log() == old(self).delivered_log().insert(
                old(self).reserved_path()->Some_0,
            ),
            r != HandoffOutcome::Delivered ==> final(self).reserved_path() == old(self).reserved_path() && final(self).delivered_log() == old(self).delivered_log(),
    {
        let p = self.reserved.take();
        match p {
            Some(path) => {
                let ghost pv = path@;
                match try_send_path(tx, path) {
                    SendAttempt::Delivered => {
                        proof {
                            self.delivered@ = self.delivered@.insert(pv);
                            assert(self.accepted@ =~= self.windowed().add(
                                self.reserved_contents(),
                            ).add(self.delivered@).add(self.rejected@));
                        }
                        HandoffOutcome::Delivered
                    },
                    SendAttempt::Full(path) => {
                        self.reserved = Some(path);
                        HandoffOutcome::ChannelFull
                    },
                    SendAttempt::Disconnected(path) => {
                        self.reserved = Some(path);
                        HandoffOutcome::ConsumerGone
                    },
                }
            },
            None => {
                HandoffOutcome::ConsumerGone
            },
        }
    }

    /// Hands the reserved candidate to the consumer, blocking while the
    /// channel is full — the core's single legitimate blocking point.
    /// `false` reports that the consumer is gone; the candidate then stays
    /// parked and the caller should stop.
    pub fn offer_blocking(&mut self, tx: &std::sync::mpsc::SyncSender<String>) -> (delivered:
        bool)
        requires
            old(self).inv(),
            old(self).reserved_path() is Some,
        ensures
            final(self).inv(),
            final(self).windowed() == old(self).windowed(),
            final(self).window_size() == old(self).window_size(),
            final(self).accepted_log() == old(self).accepted_log(),
            final(self).rejected_log() == old(self).rejected_log(),
            final(self).drain_started() == old(self).drain_started(),
            final(self).early_draws() == old(self).early_draws(),
            delivered ==> final(self).reserved_path() is None && final(self).delivered_log()
                == old(self).delivered_log().insert(old(self).reserved_path()->Some_0),
            !delivered ==> final(self).reserved_path() == old(self).reserved_path() && final(self).delivered_log() == old(self).delivered_log(),
    {
        let p = self.reserved.take();
        match p {
            Some(path) => {
                let ghost pv = path@;
                match send_path(tx, path) {
                    None => {
                        proof {
                            self.delivered@ = self.delivered@.insert(pv);
                            assert(self.accepted@ =~= self.windowed().add(
                                self.reserved_contents(),
                            ).add(self.delivered@).add(self.rejected@));
                        }
                        true
                    },
                    Some(path) => {
                        self.reserved = Some(path);
                        false
                    },
                }
            },
            None => {
                false
            },
        }
    }

    /// Marks the start of the final drain: the candidate stream has
    /// ended, so draws from a window at or below capacity are in order
    /// from here on.  Only the ghost phase marker changes.
    pub fn begin_drain(&mut self)
        requires
            old(self).inv(),
        ensures
            final(self).inv(),
            final(self).drain_started(),
            final(self).early_draws() == old(self).early_draws(),
            final(self).windowed() == old(self).windowed(),
            final(self).window_size() == old(self).window_size(),
            final(self).reserved_path() == old(self).reserved_path(),
            final(self).accepted_log() == old(self).accepted_log(),
            final(self).delivered_log() == old(self).delivered_log(),
            final(self).rejected_log() == old(self).rejected_log(),
    {
        proof {
            self.draining@ = true;
        }
    }
}

/// The outcome of one attempt to hand the reserved candidate over.
#[derive(Clone, Copy, Debug, PartialEq, Eq, Structural)]
pub enum HandoffOutcome {
    /// The consumer took the candidate.
    Delivered,
    /// The channel is full; the candidate stays parked for a retry.
    ChannelFull,
    /// The consumer dropped its end; the producer should stop.
    ConsumerGone,
}

/// Bounded memory: under the sampler's invariant the window and the
/// reserved slot together never hold more than `W + 1` candidates,
/// whatever the tree size — and that is the whole memory of the sampler.
pub proof fn lemma_window_bounded(s: Sampler)
    requires
        s.inv(),
    ensures
        s.window_size() + s.reserved_count() <= WINDOW_CAPACITY + 1,
{
}

/// The accepted log covers the window: the window can never hold more
/// candidates than were ever accepted.
pub proof fn lemma_accepted_covers_window(s: Sampler)
    requires
        s.inv(),
    ensures
        s.accepted_log().len() >= s.window_size(),
{
}

/// Conservation: every accepted candidate sits in exactly one place — the
/// window, the reserved slot, the delivered log or the rejected log.
pub proof fn lemma_conservation(s: Sampler)
    requires
        s.inv(),
    ensures
        s.accepted_log() == s.windowed().add(s.reserved_contents()).add(s.delivered_log()).add(
            s.rejected_log(),
        ),
{
}

/// Membership: once the window is drained and nothing is parked, the
/// delivered and rejected candidates together are exactly the accepted
/// ones — so whatever ordering the draws produced, the sampler neither
/// invents nor loses candidates.
pub proof fn lemma_drained_accounts_for_all(s: Sampler)
    requires
        s.inv(),
        s.window_size() == 0,
        s.reserved_path() is None,
    ensures
        s.accepted_log() == s.delivered_log().add(s.rejected_log()),
{
    assert(s.windowed().len() == 0);
    assert(s.windowed() =~= Multiset::<Seq<char>>::empty());
    assert(s.accepted_log() =~= s.delivered_log().add(s.rejected_log()));
}

/// No duplicates: a candidate accepted at most once is delivered at most
/// once; a walker that yields each on-disk file once thus never has a file
/// shown twice in one sequence lifetime.
pub proof fn lemma_no_duplicate_delivery(s: Sampler, p: Seq<char>)
    requires
        s.inv(),
        s.accepted_log().count(p) <= 1,
    ensures
        s.delivered_log().count(p) <= 1,
{
}

/// No duplicates, end to end: when the accepted candidates are exactly
/// the paths of a walk that yielded pairwise-distinct paths, no path is
/// delivered twice.
pub proof fn lemma_distinct_walk_no_duplicate_delivery(
    s: Sampler,
    yielded_paths: Seq<Seq<char>>,
    p: Seq<char>,
)
    requires
        s.inv(),
        s.accepted_log() == yielded_paths.to_multiset(),
        yielded_paths.no_duplicates(),
    ensures
        s.delivered_log().count(p) <= 1,
{
    yielded_paths.lemma_multiset_has_no_duplicates();
    if yielded_paths.to_multiset().contains(p) {
        lemma_no_duplicate_delivery(s, p);
    } else {
        assert(s.accepted_log().count(p) == 0);
        lemma_no_duplicate_delivery(s, p);
    }
}

} // verus!
