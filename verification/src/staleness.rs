//! The per-file staleness decision.
//!
//! A discovered file is regenerated unless all of the following hold: the
//! run is not forced, an artifact already exists at the mapped output path,
//! and the artifact's last-modified time is not older than the source's.
//! A modification time the host could not read counts as stale — a
//! deliberately conservative fallback — rather than failing the run.

use vstd::prelude::*;

verus! {

/// What the host found at a mapped output path, next to the source's own
/// metadata: handed in as plain values, read once per file.
#[derive(Clone, Copy)]
pub struct ArtifactStatus {
    /// Whether a file already exists at the mapped output path.
    pub artifact_exists: bool,
    /// The source file's last-modified time, if it could be read.
    pub source_mtime: Option<u64>,
    /// The artifact's last-modified time, if it exists and could be read.
    pub artifact_mtime: Option<u64>,
}

/// Whether a file must be regenerated: always under `force_build`,
/// otherwise when the artifact is missing, when either modification time
/// could not be read, or when the artifact is older than the source.
pub open spec fn spec_needs_rebuild(force_build: bool, st: ArtifactStatus) -> bool {
    ||| force_build
    ||| !st.artifact_exists
    ||| st.source_mtime is None
    ||| st.artifact_mtime is None
    ||| st.artifact_mtime->0 < st.source_mtime->0
}

/// An artifact that is present, readable, and not older than its source:
/// the one case a non-forced run skips.
pub open spec fn spec_up_to_date(st: ArtifactStatus) -> bool {
    &&& st.artifact_exists
    &&& st.source_mtime is Some
    &&& st.artifact_mtime is Some
    &&& st.source_mtime->0 <= st.artifact_mtime->0
}

/// Decides whether a file must be regenerated.
pub fn needs_rebuild(force_build: bool, st: &ArtifactStatus) -> (r: bool)
    ensures
        r == spec_needs_rebuild(force_build, *st),
{
    if force_build {
        return true;
    }
    if !st.artifact_exists {
        return true;
    }
    match (st.source_mtime, st.artifact_mtime) {
        (Some(src), Some(art)) => art < src,
        _ => true,
    }
}

/// A non-forced run regenerates exactly the files that are not up to date.
pub proof fn lemma_needs_rebuild_exact(st: ArtifactStatus)
    ensures
        spec_needs_rebuild(false, st) <==> !spec_up_to_date(st),
{
}

} // verus!
