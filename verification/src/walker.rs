//! Breadth-first directory traversal with hidden-entry pruning and media
//! filtering.
//!
//! The walker lists one directory at a time through an outside traversal
//! crate and keeps a queue of subdirectories still to visit, so the file
//! tree is never held in memory at once.  Each listing is split by the
//! verified [`split_listing`] into the candidate files to yield and the
//! subdirectories to recurse into; unreadable directories are skipped
//! silently and the walk goes on elsewhere.  A ghost log records every
//! candidate the walker ever yielded, so consumers can tie what they hand
//! out to what the walk actually found.

use crate::classify::{MediaKind, classify_spec, hidden_name, is_hidden, is_valid_media};
use crate::options::Options;
use std::collections::VecDeque;
use vstd::prelude::*;

verus! {

/// One directory entry as the walker sees it: its full path, its file name
/// (or `None` when the name is not valid Unicode — such entries are treated
/// as hidden, a fail-safe exclusion), and whether it is a regular file or a
/// directory.
pub struct DirEntryInfo {
    /// The entry's full path.
    pub path: String,
    /// The entry's bare file name, or `None` when it cannot be decoded.
    pub file_name: Option<String>,
    /// Whether the entry is a regular file.
    pub is_file: bool,
    /// Whether the entry is a directory.
    pub is_dir: bool,
}

/// Relies on `walkdir::WalkDir` restricted to a depth of exactly one: the
/// call returns the direct children of the given directory as they are on
/// disk at that moment, without following symlinks, and an unreadable
/// directory or erroneous entry yields nothing.  The result depends on what
/// is on disk, so nothing is promised of it.
#[verifier::external_body]
fn list_dir(path: &String) -> (entries: Vec<DirEntryInfo>) {
    walkdir::WalkDir::new(path)
        .min_depth(1)
        .max_depth(1)
        .into_iter()
        .filter_map(|e| e.ok())
        .map(|e| DirEntryInfo {
            path: e.path().to_string_lossy().into_owned(),
            file_name: e.file_name().to_str().map(|s| s.to_string()),
            is_file: e.file_type().is_file(),
            is_dir: e.file_type().is_dir(),
        })
        .collect()
}

/// Whether an entry name falls under the hidden-entry policy: a name
/// starting with a dot is hidden, and a name that cannot be decoded as
/// text is treated as hidden.
pub open spec fn entry_hidden(name: Option<String>) -> bool {
    match name {
        None => true,
        Some(n) => hidden_name(n@),
    }
}

/// Whether entry `e` may be yielded under the given flags: it is a regular
/// file and not a directory, it is not hidden unless hidden entries are
/// included, and its name classifies as slideshow content.
pub open spec fn entry_passes(e: DirEntryInfo, include_hidden: bool, include_video: bool) -> bool {
    &&& e.is_file
    &&& !e.is_dir
    &&& include_hidden || !entry_hidden(e.file_name)
    &&& e.file_name matches Some(n) && classify_spec(n@, include_video) != MediaKind::Rejected
}

/// Whether a listed subdirectory is recursed into: it is a directory and
/// passes the hidden-entry policy.
pub open spec fn entry_recursed(e: DirEntryInfo, include_hidden: bool) -> bool {
    e.is_dir && (include_hidden || !entry_hidden(e.file_name))
}

/// The entries of a listing that are yielded as candidates, in listing
/// order: exactly those satisfying [`entry_passes`].
pub open spec fn passing_files(s: Seq<DirEntryInfo>, include_hidden: bool, include_video: bool) -> Seq<
    DirEntryInfo,
>
    decreases s.len(),
{
    if s.len() == 0 {
        Seq::empty()
    } else {
        passing_files(s.drop_last(), include_hidden, include_video) + if entry_passes(
            s.last(),
            include_hidden,
            include_video,
        ) {
            seq![s.last()]
        } else {
            Seq::empty()
        }
    }
}

/// The paths of a listing's subdirectories that the walk recurses into, in
/// listing order: exactly those satisfying [`entry_recursed`].
pub open spec fn recursed_dirs(s: Seq<DirEntryInfo>, include_hidden: bool) -> Seq<Seq<char>>
    decreases s.len(),
{
    if s.len() == 0 {
        Seq::empty()
    } else {
        recursed_dirs(s.drop_last(), include_hidden) + if entry_recursed(
            s.last(),
            include_hidden,
        ) {
            seq![s.last().path@]
        } else {
            Seq::empty()
        }
    }
}

/// The paths of a run of candidates, in order.
pub open spec fn candidate_paths(s: Seq<DirEntryInfo>) -> Seq<Seq<char>> {
    s.map_values(|e: DirEntryInfo| e.path@)
}

/// Every entry kept by [`passing_files`] satisfies [`entry_passes`].
proof fn lemma_passing_files_pass(s: Seq<DirEntryInfo>, include_hidden: bool, include_video: bool)
    ensures
        forall|i: int|
            0 <= i < passing_files(s, include_hidden, include_video).len() ==> entry_passes(
                #[trigger] passing_files(s, include_hidden, include_video)[i],
                include_hidden,
                include_video,
            ),
    decreases s.len(),
{
    if s.len() > 0 {
        lemma_passing_files_pass(s.drop_last(), include_hidden, include_video);
        let pf = passing_files(s, include_hidden, include_video);
        let pfd = passing_files(s.drop_last(), include_hidden, include_video);
        assert forall|i: int| 0 <= i < pf.len() implies entry_passes(
            pf[i],
            include_hidden,
            include_video,
        ) by {
            if i < pfd.len() {
                assert(pf[i] == pfd[i]);
            } else {
                assert(pf[i] == s.last());
            }
        }
    }
}

fn entry_is_hidden(name: &Option<String>) -> (r: bool)
    ensures
        r == entry_hidden(*name),
{
    match name {
        None => true,
        Some(n) => is_hidden(n.as_str()),
    }
}

fn entry_passes_exec(e: &DirEntryInfo, include_hidden: bool, include_video: bool) -> (r: bool)
    ensures
        r == entry_passes(*e, include_hidden, include_video),
{
    if !e.is_file || e.is_dir {
        return false;
    }
    if !include_hidden && entry_is_hidden(&e.file_name) {
        return false;
    }
    match &e.file_name {
        None => false,
        Some(n) => is_valid_media(n.as_str(), include_video),
    }
}

/// Splits one directory listing into the candidate files to yield and the
/// subdirectory paths to recurse into: the files are exactly the entries
/// satisfying [`entry_passes`], the subdirectories exactly those
/// satisfying [`entry_recursed`], each in listing order — no passing entry
/// of a listing is skipped.
pub fn split_listing(entries: Vec<DirEntryInfo>, include_hidden: bool, include_video: bool) -> (r: (
    Vec<DirEntryInfo>,
    Vec<String>,
))
    ensures
        r.0@ == passing_files(entries@, include_hidden, include_video),
        r.1@.map_values(|p: String| p@) == recursed_dirs(entries@, include_hidden),
{
    let ghost orig = entries@;
    let mut rest = entries;
    let mut files: Vec<DirEntryInfo> = Vec::new();
    let mut subdirs: Vec<String> = Vec::new();
    let ghost mut k: int = 0;
    while rest.len() > 0
        invariant
            0 <= k <= orig.len(),
            rest@ == orig.subrange(k, orig.len() as int),
            files@ == passing_files(orig.subrange(0, k), include_hidden, include_video),
            subdirs@.map_values(|p: String| p@) == recursed_dirs(orig.subrange(0, k), include_hidden),
        decreases rest@.len(),
    {
        let e = rest.remove(0);
        proof {
            assert(e == orig[k]);
            assert(rest@ =~= orig.subrange(k + 1, orig.len() as int));
            assert(orig.subrange(0, k + 1).drop_last() =~= orig.subrange(0, k));
            assert(orig.subrange(0, k + 1).last() == orig[k]);
        }
        let ghost old_files = files@;
        let ghost old_subdir_paths = subdirs@.map_values(|p: String| p@);
        if e.is_dir {
            let keep = include_hidden || !entry_is_hidden(&e.file_name);
            assert(!entry_passes(e, include_hidden, include_video));
            if keep {
                let ghost ep = e.path@;
                subdirs.push(e.path);
                proof {
                    assert(subdirs@.map_values(|p: String| p@) =~= old_subdir_paths.push(ep));
                    assert(recursed_dirs(orig.subrange(0, k + 1), include_hidden) =~= old_subdir_paths
                        + seq![ep]);
                }
            }
        } else if entry_passes_exec(&e, include_hidden, include_video) {
            files.push(e);
            proof {
                assert(passing_files(orig.subrange(0, k + 1), include_hidden, include_video)
                    =~= old_files + seq![orig[k]]);
                assert(files@ =~= old_files + seq![orig[k]]);
            }
        } else {
            assert(!entry_recursed(e, include_hidden));
        }
        proof {
            assert(files@ =~= passing_files(orig.subrange(0, k + 1), include_hidden, include_video));
            assert(subdirs@.map_values(|p: String| p@) =~= recursed_dirs(
                orig.subrange(0, k + 1),
                include_hidden,
            ));
            k = k + 1;
        }
    }
    proof {
        assert(orig.subrange(0, orig.len() as int) =~= orig);
    }
    (files, subdirs)
}

/// Breadth-first walker over the configured roots.  Roots are entered
/// unconditionally; the hidden policy applies to everything found inside
/// them, and hidden subdirectories are pruned whole.
///
/// The walker carries a budget of directories it may still list, starting
/// at the largest representable value; it is the walk's termination
/// measure, and in practice the walk is bounded only by the tree.
pub struct MediaWalker {
    /// Directories discovered but not yet listed, oldest first.
    pending_dirs: VecDeque<String>,
    /// Candidate files of the directory listed last, not yet yielded
    /// (every one of them passed the filters), yielded from the back.
    pending_files: Vec<DirEntryInfo>,
    /// How many directories may still be listed.
    dir_budget: usize,
    /// Whether hidden entries take part in the walk.
    include_hidden: bool,
    /// Whether video files count as media.
    include_video: bool,
    /// Ghost log: every candidate this walker has yielded, in order.
    yielded: Ghost<Seq<DirEntryInfo>>,
}

impl MediaWalker {
    /// Well-formedness: everything buffered for yielding has passed the
    /// filters.  Constructors establish it; every method preserves it.
    pub closed spec fn wf(self) -> bool {
        forall|i: int|
            0 <= i < self.pending_files@.len() ==> entry_passes(
                #[trigger] self.pending_files@[i],
                self.include_hidden,
                self.include_video,
            )
    }

    /// Whether the walk is complete: nothing pending and nothing buffered.
    /// Once finished, a walker stays finished.
    pub closed spec fn finished(self) -> bool {
        self.pending_dirs@.len() == 0 && self.pending_files@.len() == 0
    }

    /// The hidden-entry flag this walker was configured with.
    pub closed spec fn spec_include_hidden(self) -> bool {
        self.include_hidden
    }

    /// The video flag this walker was configured with.
    pub closed spec fn spec_include_video(self) -> bool {
        self.include_video
    }

    /// The paths of the directories still queued for listing, oldest
    /// first.
    pub closed spec fn queued_dirs(self) -> Seq<Seq<char>> {
        self.pending_dirs@.map_values(|p: String| p@)
    }

    /// The candidate files buffered for yielding, in buffer order; the
    /// next yield is the last of them.
    pub closed spec fn buffered_files(self) -> Seq<DirEntryInfo> {
        self.pending_files@
    }

    /// Every candidate this walker has yielded so far, in order.
    pub closed spec fn candidates(self) -> Seq<DirEntryInfo> {
        self.yielded@
    }

    /// First component of the walk's termination measure: how many
    /// directories may still be listed.
    pub closed spec fn dirs_left(self) -> nat {
        self.dir_budget as nat
    }

    /// Second component of the walk's termination measure: how many
    /// buffered candidates await yielding.
    pub closed spec fn buffered(self) -> nat {
        self.pending_files@.len()
    }

    /// Starts a walk over the roots named by `opts`, under its hidden-entry
    /// and video flags: exactly those roots are queued, nothing is buffered
    /// and nothing has been yielded.
    pub fn new(opts: &Options) -> (w: MediaWalker)
        ensures
            w.wf(),
            w.spec_include_hidden() == opts.hidden,
            w.spec_include_video() == opts.video,
            w.queued_dirs() == opts.paths@.map_values(|p: String| p@),
            w.buffered() == 0,
            w.candidates() == Seq::<DirEntryInfo>::empty(),
            w.dirs_left() == usize::MAX,
    {
        let mut pending_dirs: VecDeque<String> = VecDeque::new();
        let mut i: usize = 0;
        while i < opts.paths.len()
            invariant
                i <= opts.paths.len(),
                pending_dirs@.len() == i,
                forall|j: int| 0 <= j < i ==> #[trigger] pending_dirs@[j] == opts.paths@[j],
            decreases opts.paths.len() - i,
        {
            pending_dirs.push_back(opts.paths[i].clone());
            i = i + 1;
        }
        let w = MediaWalker {
            pending_dirs,
            pending_files: Vec::new(),
            dir_budget: usize::MAX,
            include_hidden: opts.hidden,
            include_video: opts.video,
            yielded: Ghost(Seq::empty()),
        };
        proof {
            assert(w.queued_dirs() =~= opts.paths@.map_values(|p: String| p@));
        }
        w
    }

    /// Lists the directory at the head of the queue and replaces it, for
    /// some listing of it, by exactly that listing's passing files (into
    /// the buffer) and passing subdirectories (onto the queue's back).
    fn refill(&mut self)
        requires
            old(self).wf(),
            old(self).buffered() == 0,
            old(self).queued_dirs().len() > 0,
            old(self).dirs_left() > 0,
        ensures
            final(self).wf(),
            final(self).spec_include_hidden() == old(self).spec_include_hidden(),
            final(self).spec_include_video() == old(self).spec_include_video(),
            final(self).candidates() == old(self).candidates(),
            final(self).dirs_left() == old(self).dirs_left() - 1,
            exists|listing: Seq<DirEntryInfo>|
                final(self).buffered_files() == passing_files(
                    listing,
                    old(self).spec_include_hidden(),
                    old(self).spec_include_video(),
                ) && final(self).queued_dirs() == old(self).queued_dirs().drop_first()
                    + recursed_dirs(listing, old(self).spec_include_hidden()),
    {
        let ghost old_queue = self.queued_dirs();
        let dir = self.pending_dirs.pop_front().unwrap();
        proof {
            assert(self.pending_dirs@.map_values(|p: String| p@) =~= old_queue.drop_first());
        }
        let ghost base_vd = self.pending_dirs@;
        self.dir_budget = self.dir_budget - 1;
        let listing = list_dir(&dir);
        let ghost lv = listing@;
        let (files, subdirs) = split_listing(listing, self.include_hidden, self.include_video);
        let ghost all_subdirs = subdirs@;
        self.pending_files = files;
        let mut rest = subdirs;
        let ghost mut pushed: int = 0;
        proof {
            assert(rest@ =~= all_subdirs.subrange(0, all_subdirs.len() as int));
        }
        while rest.len() > 0
            invariant
                0 <= pushed <= all_subdirs.len(),
                rest@ == all_subdirs.subrange(pushed, all_subdirs.len() as int),
                self.pending_dirs@ == base_vd + all_subdirs.subrange(0, pushed),
                self.pending_files@ == passing_files(lv, self.include_hidden, self.include_video),
                self.include_hidden == old(self).spec_include_hidden(),
                self.include_video == old(self).spec_include_video(),
                self.dir_budget == old(self).dirs_left() - 1,
                self.yielded@ == old(self).candidates(),
            decreases rest@.len(),
        {
            let ghost before = self.pending_dirs@;
            let d = rest.remove(0);
            proof {
                assert(d == all_subdirs[pushed]);
                assert(rest@ =~= all_subdirs.subrange(pushed + 1, all_subdirs.len() as int));
            }
            self.pending_dirs.push_back(d);
            proof {
                assert(self.pending_dirs@ =~= base_vd + all_subdirs.subrange(0, pushed + 1));
                pushed = pushed + 1;
            }
        }
        proof {
            assert(all_subdirs.subrange(0, all_subdirs.len() as int) =~= all_subdirs);
            assert(self.pending_dirs@ == base_vd + all_subdirs);
            lemma_passing_files_pass(lv, self.include_hidden, self.include_video);
            assert(self.pending_dirs@.map_values(|p: String| p@) =~= base_vd.map_values(
                |p: String| p@,
            ) + all_subdirs.map_values(|p: String| p@));
            assert(self.queued_dirs() == old_queue.drop_first() + recursed_dirs(
                lv,
                old(self).spec_include_hidden(),
            ));
            assert(self.pending_files@ == passing_files(
                lv,
                old(self).spec_include_hidden(),
                old(self).spec_include_video(),
            ));
        }
    }

    /// Yields the next candidate of the walk, or `None` once the tree is
    /// exhausted.  Every yielded entry has passed the hidden-entry policy
    /// and the media classifier and is appended to the candidate log.
    /// While candidates are buffered the call is an exact pop from the
    /// buffer's back; otherwise queued directories are listed (through
    /// [`split_listing`], so no passing entry is skipped) until a
    /// candidate or nothing is left.  After `None` the walker is finished
    /// and every further call returns `None` again.  Each yielded
    /// candidate strictly shrinks the termination measure, so a loop
    /// pulling candidates terminates.
    pub fn next_candidate(&mut self) -> (r: Option<DirEntryInfo>)
        requires
            old(self).wf(),
        ensures
            final(self).wf(),
            final(self).spec_include_hidden() == old(self).spec_include_hidden(),
            final(self).spec_include_video() == old(self).spec_include_video(),
            r matches Some(e) ==> entry_passes(
                e,
                old(self).spec_include_hidden(),
                old(self).spec_include_video(),
            ) && final(self).candidates() == old(self).candidates().push(e),
            r is None ==> final(self).finished() && final(self).candidates() == old(
                self,
            ).candidates(),
            old(self).finished() ==> r is None,
            old(self).candidates().is_prefix_of(final(self).candidates()),
            old(self).buffered() > 0 ==> r == Some(old(self).buffered_files().last())
                && final(self).buffered_files() == old(self).buffered_files().drop_last()
                && final(self).queued_dirs() == old(self).queued_dirs()
                && final(self).dirs_left() == old(self).dirs_left(),
            final(self).dirs_left() <= old(self).dirs_left(),
            r is Some ==> final(self).dirs_left() < old(self).dirs_left()
                || (final(self).dirs_left() == old(self).dirs_left()
                    && final(self).buffered() < old(self).buffered()),
    {
        let first = self.pending_files.pop();
        match first {
            Some(e) => {
                proof {
                    self.yielded@ = self.yielded@.push(e);
                    assert(self.yielded@.subrange(0, old(self).candidates().len() as int)
                        =~= old(self).candidates());
                }
                return Some(e);
            },
            None => {},
        }
        loop
            invariant
                self.wf(),
                self.include_hidden == old(self).spec_include_hidden(),
                self.include_video == old(self).spec_include_video(),
                self.yielded@ == old(self).candidates(),
                old(self).buffered() == 0,
                old(self).finished() ==> self.finished(),
                self.dirs_left() <= old(self).dirs_left(),
                self.buffered() > 0 ==> self.dirs_left() < old(self).dirs_left(),
            decreases self.dir_budget, self.pending_files.len(),
        {
            let popped = self.pending_files.pop();
            match popped {
                Some(e) => {
                    proof {
                        self.yielded@ = self.yielded@.push(e);
                        assert(self.yielded@.subrange(0, old(self).candidates().len() as int)
                            =~= old(self).candidates());
                    }
                    return Some(e);
                },
                None => {
                    if self.pending_dirs.len() == 0 {
                        return None;
                    }
                    if self.dir_budget == 0 {
                        self.pending_dirs.clear();
                        return None;
                    }
                    self.refill();
                },
            }
        }
    }
}

} // verus!
