//! The validity prober: an external collaborator that decides whether a
//! file is actually decodable, not just named like media.

use vstd::prelude::*;

verus! {

/// Relies on `ffprobe::ffprobe`: it runs a cheap format probe over the
/// file at the given path and reports whether the probe succeeded.  The
/// outcome depends on what is on disk and on the probing tool, so nothing
/// is promised of it; a probe failure of any kind — unreadable file,
/// missing tool — counts as invalid and is never fatal.
#[verifier::external_body]
pub(crate) fn probe_path(path: &String) -> (valid: bool) {
    ffprobe::ffprobe(path.as_str()).is_ok()
}

} // verus!
