//! Directory listings: one directory read is partitioned into
//! subdirectories and files, and each side is sorted case-insensitively
//! (primary key: the case-folded name), the original-case names retained.

use vstd::prelude::*;
use vstd::string::StrSliceExecFns;
use vstd::multiset::Multiset;
use crate::paths::ExistenceClass;
use crate::strutil::{lower_code, lower_code_ex};

verus! {

broadcast use vstd::seq_lib::group_to_multiset_ensures;

/// One entry of a directory read, with the class the probes reported.
pub struct DirEntry {
    /// The entry's name, in its original case.
    pub name: String,
    /// What the entry is.
    pub class: ExistenceClass,
}

/// Case-insensitive lexicographic order on names: by case-folded code
/// points, with a prefix before every extension of it.
pub open spec fn ci_le(a: Seq<char>, b: Seq<char>) -> bool
    decreases a.len(),
{
    if a.len() == 0 {
        true
    } else if b.len() == 0 {
        false
    } else if lower_code(a[0]) != lower_code(b[0]) {
        lower_code(a[0]) < lower_code(b[0])
    } else {
        ci_le(a.drop_first(), b.drop_first())
    }
}

/// The order is total.
pub proof fn lemma_ci_le_total(a: Seq<char>, b: Seq<char>)
    ensures
        ci_le(a, b) || ci_le(b, a),
    decreases a.len(),
{
    if a.len() > 0 && b.len() > 0 && lower_code(a[0]) == lower_code(b[0]) {
        lemma_ci_le_total(a.drop_first(), b.drop_first());
    }
}

/// The order is transitive.
pub proof fn lemma_ci_le_trans(a: Seq<char>, b: Seq<char>, c: Seq<char>)
    requires
        ci_le(a, b),
        ci_le(b, c),
    ensures
        ci_le(a, c),
    decreases a.len(),
{
    if a.len() > 0 && b.len() > 0 && c.len() > 0 && lower_code(a[0]) == lower_code(b[0])
        && lower_code(b[0]) == lower_code(c[0]) {
        lemma_ci_le_trans(a.drop_first(), b.drop_first(), c.drop_first());
    }
}

/// Compares two names under the case-insensitive order.
pub fn ci_le_ex(a: &str, b: &str) -> (r: bool)
    ensures
        r == ci_le(a@, b@),
{
    let na = a.unicode_len();
    let nb = b.unicode_len();
    let mut i: usize = 0;
    proof {
        assert(a@.skip(0) =~= a@);
        assert(b@.skip(0) =~= b@);
    }
    while i < na && i < nb
        invariant
            na == a@.len(),
            nb == b@.len(),
            i <= na,
            i <= nb,
            ci_le(a@, b@) == ci_le(a@.skip(i as int), b@.skip(i as int)),
        decreases na - i,
    {
        let ghost askip = a@.skip(i as int);
        let ghost bskip = b@.skip(i as int);
        proof {
            assert(askip[0] == a@[i as int]);
            assert(bskip[0] == b@[i as int]);
            assert(askip.drop_first() =~= a@.skip(i as int + 1));
            assert(bskip.drop_first() =~= b@.skip(i as int + 1));
        }
        let ca = lower_code_ex(a.get_char(i));
        let cb = lower_code_ex(b.get_char(i));
        if ca < cb {
            return true;
        }
        if ca > cb {
            return false;
        }
        i = i + 1;
    }
    proof {
        if i >= na {
            assert(a@.skip(i as int).len() == 0);
        } else {
            assert(b@.skip(i as int).len() == 0);
            assert(a@.skip(i as int).len() > 0);
        }
    }
    i >= na
}

/// The sequence is sorted under the case-insensitive order.
pub open spec fn ci_sorted(s: Seq<Seq<char>>) -> bool {
    forall|i: int, j: int| 0 <= i < j < s.len() ==> ci_le(#[trigger] s[i], #[trigger] s[j])
}

/// Inserting an element anywhere adds exactly it to the multiset.
proof fn lemma_insert_to_multiset(s: Seq<Seq<char>>, p: int, e: Seq<char>)
    requires
        0 <= p <= s.len(),
    ensures
        s.insert(p, e).to_multiset() == s.to_multiset().insert(e),
{
    broadcast use vstd::seq_lib::lemma_multiset_commutative;
    broadcast use vstd::multiset::group_multiset_axioms;

    let t = s.take(p);
    let k = s.skip(p);
    assert(s.insert(p, e) =~= t.push(e) + k);
    assert(s =~= t + k);
    assert((t.push(e) + k).to_multiset() == t.push(e).to_multiset().add(k.to_multiset()));
    assert(t.push(e).to_multiset() =~= t.to_multiset().insert(e));
    assert((t + k).to_multiset() == t.to_multiset().add(k.to_multiset()));
    assert(t.to_multiset().insert(e).add(k.to_multiset()) =~= t.to_multiset().add(
        k.to_multiset(),
    ).insert(e));
}

/// Inserts one name into an already sorted vector, keeping it sorted.
fn insert_sorted(v: &mut Vec<String>, x: String)
    requires
        ci_sorted(old(v).deep_view()),
    ensures
        ci_sorted(final(v).deep_view()),
        final(v).deep_view().to_multiset() == old(v).deep_view().to_multiset().insert(x@),
        final(v)@.len() == old(v)@.len() + 1,
{
    let ghost dv = v.deep_view();
    let mut p: usize = 0;
    while p < v.len() && ci_le_ex(v[p].as_str(), x.as_str())
        invariant
            v@ == old(v)@,
            v.deep_view() == dv,
            p <= v@.len(),
            forall|j: int| 0 <= j < p ==> ci_le(#[trigger] dv[j], x@),
        decreases v@.len() - p,
    {
        p = p + 1;
    }
    let ghost stopped_short = p < v@.len();
    proof {
        if stopped_short {
            assert(!ci_le(dv[p as int], x@));
            lemma_ci_le_total(dv[p as int], x@);
            assert(ci_le(x@, dv[p as int]));
        }
    }
    v.insert(p, x);
    proof {
        assert forall|k: int| 0 <= k < v.deep_view().len() implies v.deep_view()[k] == dv.insert(
            p as int,
            x@,
        )[k] by {
            if k < p {
                assert(v@[k] == old(v)@[k]);
            } else if k > p {
                assert(v@[k] == old(v)@[k - 1]);
            }
        }
        assert(v.deep_view() =~= dv.insert(p as int, x@));
        lemma_insert_to_multiset(dv, p as int, x@);
        let nv = v.deep_view();
        assert forall|i: int, j: int| 0 <= i < j < nv.len() implies ci_le(
            #[trigger] nv[i],
            #[trigger] nv[j],
        ) by {
            if j < p {
                assert(nv[i] == dv[i] && nv[j] == dv[j]);
            } else if j == p {
                assert(nv[i] == dv[i] && nv[j] == x@);
            } else {
                assert(nv[j] == dv[j - 1]);
                if i < p {
                    assert(nv[i] == dv[i]);
                    assert(ci_le(dv[i], dv[j - 1]));
                } else if i == p {
                    assert(nv[i] == x@);
                    assert(ci_le(x@, dv[p as int]));
                    if j - 1 == p {
                        assert(nv[j] == dv[p as int]);
                    } else {
                        assert(ci_le(dv[p as int], dv[j - 1]));
                        lemma_ci_le_trans(x@, dv[p as int], dv[j - 1]);
                    }
                } else {
                    assert(nv[i] == dv[i - 1]);
                    assert(ci_le(dv[i - 1], dv[j - 1]));
                }
            }
        }
    }
}

/// Sorts names under the case-insensitive order; the result is a
/// permutation of the input.
pub fn sort_names(names: Vec<String>) -> (r: Vec<String>)
    ensures
        ci_sorted(r.deep_view()),
        r.deep_view().to_multiset() == names.deep_view().to_multiset(),
{
    let ghost dv = names.deep_view();
    let mut out: Vec<String> = Vec::new();
    let mut i: usize = 0;
    proof {
        assert(out.deep_view() =~= Seq::<Seq<char>>::empty());
        assert(dv.subrange(0, 0) =~= Seq::<Seq<char>>::empty());
        assert(Seq::<Seq<char>>::empty().to_multiset() =~= Multiset::<Seq<char>>::empty());
    }
    while i < names.len()
        invariant
            i <= names@.len(),
            dv == names.deep_view(),
            dv.len() == names@.len(),
            forall|j: int| 0 <= j < names@.len() ==> dv[j] == names@[j]@,
            ci_sorted(out.deep_view()),
            out.deep_view().to_multiset() == dv.subrange(0, i as int).to_multiset(),
        decreases names@.len() - i,
    {
        insert_sorted(&mut out, names[i].clone());
        proof {
            assert(dv.subrange(0, i as int + 1) =~= dv.subrange(0, i as int).push(dv[i as int]));
        }
        i = i + 1;
    }
    proof {
        assert(dv.subrange(0, names@.len() as int) =~= dv);
    }
    out
}

/// The names of the file entries, in reading order.
pub open spec fn file_names(entries: Seq<DirEntry>) -> Seq<Seq<char>>
    decreases entries.len(),
{
    if entries.len() == 0 {
        Seq::empty()
    } else {
        let rest = file_names(entries.drop_last());
        if entries.last().class is File {
            rest.push(entries.last().name@)
        } else {
            rest
        }
    }
}

/// The names of the subdirectory entries, in reading order.
pub open spec fn dir_names(entries: Seq<DirEntry>) -> Seq<Seq<char>>
    decreases entries.len(),
{
    if entries.len() == 0 {
        Seq::empty()
    } else {
        let rest = dir_names(entries.drop_last());
        if entries.last().class is Directory {
            rest.push(entries.last().name@)
        } else {
            rest
        }
    }
}

/// A directory listing: both sides sorted case-insensitively.
pub struct DirectoryListing {
    /// The subdirectory names.
    pub directories: Vec<String>,
    /// The file names.
    pub files: Vec<String>,
}

/// Builds the listing of one directory read: entries are partitioned by
/// class (entries that are neither file nor directory are dropped) and
/// each side is sorted case-insensitively, original-case names retained.
pub fn list(entries: &Vec<DirEntry>) -> (r: DirectoryListing)
    ensures
        ci_sorted(r.directories.deep_view()),
        ci_sorted(r.files.deep_view()),
        r.directories.deep_view().to_multiset() == dir_names(entries@).to_multiset(),
        r.files.deep_view().to_multiset() == file_names(entries@).to_multiset(),
{
    let mut dirs: Vec<String> = Vec::new();
    let mut files: Vec<String> = Vec::new();
    let mut i: usize = 0;
    proof {
        assert(entries@.subrange(0, 0) =~= Seq::<DirEntry>::empty());
        assert(dirs.deep_view() =~= dir_names(entries@.subrange(0, 0)));
        assert(files.deep_view() =~= file_names(entries@.subrange(0, 0)));
    }
    while i < entries.len()
        invariant
            i <= entries@.len(),
            dirs.deep_view() == dir_names(entries@.subrange(0, i as int)),
            files.deep_view() == file_names(entries@.subrange(0, i as int)),
        decreases entries@.len() - i,
    {
        proof {
            assert(entries@.subrange(0, i as int + 1).drop_last() =~= entries@.subrange(
                0,
                i as int,
            ));
            assert(entries@.subrange(0, i as int + 1).last() == entries@[i as int]);
        }
        match entries[i].class {
            ExistenceClass::Directory => {
                let ghost before = dirs.deep_view();
                dirs.push(entries[i].name.clone());
                proof {
                    assert(dirs.deep_view() =~= before.push(entries@[i as int].name@));
                }
            },
            ExistenceClass::File => {
                let ghost before = files.deep_view();
                files.push(entries[i].name.clone());
                proof {
                    assert(files.deep_view() =~= before.push(entries@[i as int].name@));
                }
            },
            ExistenceClass::Absent => {},
        }
        i = i + 1;
    }
    proof {
        assert(entries@.subrange(0, entries@.len() as int) =~= entries@);
    }
    let directories = sort_names(dirs);
    let files_sorted = sort_names(files);
    DirectoryListing { directories, files: files_sorted }
}

} // verus!
