//! The path resolver and sandbox: a caller-supplied sequence of path
//! segments becomes a validated relative path strictly inside the storage
//! root, or is rejected. Nothing here touches the filesystem; existence is
//! a classification the caller observed and hands in.
//!
//! Containment is stated over path segments: resolved paths are not
//! canonicalized, so a symlink placed inside a tenant directory can still
//! point outside the sandbox — a known, deliberate limit of this design.

use vstd::prelude::*;
use vstd::string::StringExecFns;
use crate::strutil::char_in;

verus! {

/// Why a requested path was rejected.
#[derive(Debug, Clone, Copy, PartialEq, Eq, Structural)]
pub enum InvalidPath {
    /// A segment tried to escape towards the parent directory.
    Traversal,
    /// A segment was empty or held a separator.
    Malformed,
}

/// A bare current-directory self-reference, permitted and skipped.
pub open spec fn seg_is_self(s: Seq<char>) -> bool {
    s == "."@
}

/// A parent-escaping segment, always rejected.
pub open spec fn seg_is_parent(s: Seq<char>) -> bool {
    s == ".."@
}

/// A segment no request may carry: empty, or holding a separator.
pub open spec fn seg_malformed(s: Seq<char>) -> bool {
    s.len() == 0 || s.contains('/')
}

/// A segment that joining onto the storage root can never escape from:
/// it names one entry, below the directory it is joined to.
pub open spec fn seg_keeps_sandbox(s: Seq<char>) -> bool {
    !seg_is_parent(s) && !seg_is_self(s) && !seg_malformed(s)
}

/// Whether some segment of the request escapes towards a parent.
pub open spec fn any_parent_segment(segs: Seq<Seq<char>>) -> bool {
    exists|i: int| 0 <= i < segs.len() && seg_is_parent(#[trigger] segs[i])
}

/// Whether some segment of the request is malformed.
pub open spec fn any_malformed_segment(segs: Seq<Seq<char>>) -> bool {
    exists|i: int| 0 <= i < segs.len() && seg_malformed(#[trigger] segs[i])
}

/// The request's segments with the bare self-references skipped.
pub open spec fn normalize_segments(segs: Seq<Seq<char>>) -> Seq<Seq<char>>
    decreases segs.len(),
{
    if segs.len() == 0 {
        Seq::empty()
    } else {
        let rest = normalize_segments(segs.drop_last());
        if seg_is_self(segs.last()) {
            rest
        } else {
            rest.push(segs.last())
        }
    }
}

/// The existence class of a resolved path, as the caller observed it.
#[derive(Debug, Clone, Copy, PartialEq, Eq, Structural)]
pub enum ExistenceClass {
    File,
    Directory,
    Absent,
}

/// Folds the two filesystem probes of a path into its existence class;
/// a path that is both is classified as a file, as the probes are read in
/// that order.
pub fn classify(is_file: bool, is_dir: bool) -> (c: ExistenceClass)
    ensures
        c == (if is_file {
            ExistenceClass::File
        } else if is_dir {
            ExistenceClass::Directory
        } else {
            ExistenceClass::Absent
        }),
{
    if is_file {
        ExistenceClass::File
    } else if is_dir {
        ExistenceClass::Directory
    } else {
        ExistenceClass::Absent
    }
}

/// The (is-file, is-directory) pair of a classified path.
pub fn check_path(class: ExistenceClass) -> (r: (bool, bool))
    ensures
        r.0 == (class is File),
        r.1 == (class is Directory),
{
    (
        matches!(class, ExistenceClass::File),
        matches!(class, ExistenceClass::Directory),
    )
}

/// A validated relative path: every stored segment stays inside the
/// sandbox, so joining the segments onto the storage root can only name
/// an entry at or below it.
pub struct DotPathBuf {
    segments: Vec<String>,
}

impl DotPathBuf {
    /// The stored segments, as sequences of characters.
    pub closed spec fn segs(&self) -> Seq<Seq<char>> {
        self.segments.deep_view()
    }

    /// Every stored segment keeps the sandbox.
    pub open spec fn wf(&self) -> bool {
        forall|i: int| 0 <= i < self.segs().len() ==> seg_keeps_sandbox(#[trigger] self.segs()[i])
    }

    /// Resolves a request's segments: rejects a parent-escaping or
    /// malformed segment, skips bare self-references, and keeps the rest
    /// in order. An accepted path therefore never resolves outside the
    /// storage root.
    pub fn from_segments(segments: &Vec<String>) -> (r: Result<DotPathBuf, InvalidPath>)
        ensures
            r is Err <==> any_parent_segment(segments.deep_view()) || any_malformed_segment(
                segments.deep_view(),
            ),
            r matches Err(InvalidPath::Traversal) ==> any_parent_segment(segments.deep_view()),
            r matches Err(InvalidPath::Malformed) ==> any_malformed_segment(segments.deep_view()),
            r matches Ok(p) ==> p.segs() == normalize_segments(segments.deep_view()) && p.wf(),
    {
        let parent_marker = String::from_str("..");
        let self_marker = String::from_str(".");
        let mut kept: Vec<String> = Vec::new();
        let mut i: usize = 0;
        proof {
            assert(segments.deep_view().subrange(0, 0) =~= Seq::<Seq<char>>::empty());
        }
        while i < segments.len()
            invariant
                i <= segments.len(),
                segments.deep_view().len() == segments@.len(),
                forall|j: int|
                    0 <= j < segments@.len() ==> segments.deep_view()[j] == segments@[j]@,
                parent_marker@ == ".."@,
                self_marker@ == "."@,
                kept.deep_view() == normalize_segments(segments.deep_view().subrange(0, i as int)),
                forall|j: int|
                    0 <= j < kept.deep_view().len() ==> seg_keeps_sandbox(
                        #[trigger] kept.deep_view()[j],
                    ),
                forall|j: int|
                    0 <= j < i ==> !seg_is_parent(#[trigger] segments.deep_view()[j])
                        && !seg_malformed(segments.deep_view()[j]),
            decreases segments.len() - i,
        {
            let seg = &segments[i];
            let ghost prefix = segments.deep_view().subrange(0, i as int);
            proof {
                assert(segments.deep_view().subrange(0, i as int + 1).drop_last() =~= prefix);
                assert(segments.deep_view().subrange(0, i as int + 1).last() == segments.deep_view()[i as int]);
            }
            if *seg == parent_marker {
                return Err(InvalidPath::Traversal);
            }
            if seg.unicode_len() == 0 || char_in(seg.as_str(), '/') {
                return Err(InvalidPath::Malformed);
            }
            if !(*seg == self_marker) {
                let ghost before = kept.deep_view();
                kept.push(seg.clone());
                proof {
                    assert(kept.deep_view() =~= before.push(seg@));
                    assert(seg_keeps_sandbox(seg@));
                    assert(forall|j: int|
                        0 <= j < before.len() ==> kept.deep_view()[j] == before[j]);
                }
            }
            i = i + 1;
        }
        proof {
            assert(segments.deep_view().subrange(0, segments@.len() as int) =~= segments.deep_view());
        }
        Ok(DotPathBuf { segments: kept })
    }

    /// The number of stored segments.
    pub fn depth(&self) -> (n: usize)
        ensures
            n == self.segs().len(),
    {
        self.segments.len()
    }

    /// The tenant root: the first segment of the relative path.
    pub fn tenant(&self) -> (r: Option<&String>)
        ensures
            match r {
                Some(t) => self.segs().len() > 0 && t@ == self.segs()[0],
                None => self.segs().len() == 0,
            },
    {
        if self.segments.len() > 0 {
            Some(&self.segments[0])
        } else {
            None
        }
    }

    /// The last segment: the name of the entry the path points at.
    pub fn last_segment(&self) -> (r: Option<&String>)
        ensures
            match r {
                Some(t) => self.segs().len() > 0 && t@ == self.segs().last(),
                None => self.segs().len() == 0,
            },
    {
        if self.segments.len() > 0 {
            Some(&self.segments[self.segments.len() - 1])
        } else {
            None
        }
    }

    /// A borrowed view of the stored segments, for the caller to join
    /// onto the storage root.
    pub fn segments(&self) -> (r: &Vec<String>)
        ensures
            r.deep_view() == self.segs(),
    {
        &self.segments
    }

    /// The relative path as one string, segments joined by a separator.
    pub fn join_string(&self) -> (r: String)
        ensures
            r@ == join_segments(self.segs()),
    {
        let mut out = String::new();
        let mut i: usize = 0;
        proof {
            assert(self.segs().subrange(0, 0) =~= Seq::<Seq<char>>::empty());
        }
        while i < self.segments.len()
            invariant
                i <= self.segments.len(),
                self.segs().len() == self.segments@.len(),
                forall|j: int| 0 <= j < self.segments@.len() ==> self.segs()[j] == self.segments@[j]@,
                out@ == join_segments(self.segs().subrange(0, i as int)),
            decreases self.segments.len() - i,
        {
            let ghost prefix = self.segs().subrange(0, i as int);
            proof {
                assert(self.segs().subrange(0, i as int + 1).drop_last() =~= prefix);
                assert(self.segs().subrange(0, i as int + 1).last() == self.segs()[i as int]);
            }
            if i > 0 {
                out.push('/');
            }
            out.append(self.segments[i].as_str());
            i = i + 1;
        }
        proof {
            assert(self.segs().subrange(0, self.segments@.len() as int) =~= self.segs());
        }
        out
    }
}

/// Containment, in the segment model: joining a well-formed relative path
/// onto the storage root leaves the root's segments an unchanged prefix,
/// and appends only segments that keep the sandbox — so the resolved path
/// never names anything outside the storage root.
pub proof fn lemma_resolved_path_stays_inside(root: Seq<Seq<char>>, p: &DotPathBuf)
    requires
        p.wf(),
    ensures
        (root + p.segs()).subrange(0, root.len() as int) == root,
        forall|i: int|
            root.len() <= i < (root + p.segs()).len() ==> seg_keeps_sandbox(
                #[trigger] (root + p.segs())[i],
            ),
{
    assert((root + p.segs()).subrange(0, root.len() as int) =~= root);
    assert forall|i: int|
        root.len() <= i < (root + p.segs()).len() implies seg_keeps_sandbox(
        #[trigger] (root + p.segs())[i],
    ) by {
        assert((root + p.segs())[i] == p.segs()[i - root.len()]);
    }
}

/// The segments joined by `/`, with no leading or trailing separator.
pub open spec fn join_segments(segs: Seq<Seq<char>>) -> Seq<char>
    decreases segs.len(),
{
    if segs.len() == 0 {
        Seq::empty()
    } else if segs.len() == 1 {
        segs[0]
    } else {
        join_segments(segs.drop_last()) + seq!['/'] + segs.last()
    }
}

} // verus!
