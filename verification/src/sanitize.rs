//! The shared name sanitizer: entry names chosen by clients are reduced to
//! a configured character whitelist, trimmed, and bounded in length before
//! they ever reach the filesystem.

use vstd::prelude::*;
use vstd::string::StrSliceExecFns;
use crate::strutil::{chars_to_string, char_in};

verus! {

/// The characters of `s` that occur in the whitelist `wl`, in order.
pub open spec fn keep_whitelisted(s: Seq<char>, wl: Seq<char>) -> Seq<char>
    decreases s.len(),
{
    if s.len() == 0 {
        Seq::empty()
    } else {
        let rest = keep_whitelisted(s.drop_last(), wl);
        if wl.contains(s.last()) {
            rest.push(s.last())
        } else {
            rest
        }
    }
}

/// `s` without its leading spaces.
pub open spec fn strip_leading_spaces(s: Seq<char>) -> Seq<char>
    decreases s.len(),
{
    if s.len() > 0 && s[0] == ' ' {
        strip_leading_spaces(s.drop_first())
    } else {
        s
    }
}

/// A character removed from the end of a name: spaces always, dots only
/// for directory names (file names keep their extensions).
pub open spec fn is_stripped_char(c: char, dots: bool) -> bool {
    c == ' ' || (dots && c == '.')
}

/// `s` without its trailing spaces (and, when `dots` holds, trailing dots).
pub open spec fn strip_trailing(s: Seq<char>, dots: bool) -> Seq<char>
    decreases s.len(),
{
    if s.len() > 0 && is_stripped_char(s.last(), dots) {
        strip_trailing(s.drop_last(), dots)
    } else {
        s
    }
}

/// The trailing `max` characters of `s`; all of `s` when it is short enough.
pub open spec fn keep_tail(s: Seq<char>, max: nat) -> Seq<char> {
    if s.len() > max {
        s.subrange(s.len() - max, s.len() as int)
    } else {
        s
    }
}

/// The whole sanitizing pipeline: whitelist filter, trim of the leading
/// spaces, trim of the trailing characters, length bound.
pub open spec fn sanitize_pipeline(s: Seq<char>, wl: Seq<char>, max: nat, dots: bool) -> Seq<char> {
    keep_tail(strip_trailing(strip_leading_spaces(keep_whitelisted(s, wl)), dots), max)
}

/// What `sanitize_string` returns: the directory-name rules (trailing dots
/// are stripped as well).
pub open spec fn sanitize_spec(s: Seq<char>, wl: Seq<char>, max: nat) -> Seq<char> {
    sanitize_pipeline(s, wl, max, true)
}

/// What `sanitize_file_name` returns: the file-name rules (only whitespace
/// is trimmed, so extensions survive).
pub open spec fn sanitize_file_name_spec(s: Seq<char>, wl: Seq<char>, max: nat) -> Seq<char> {
    sanitize_pipeline(s, wl, max, false)
}

/// The characters of `input` that occur in `whitelist`, in order.
fn filter_to_vec(input: &str, whitelist: &str) -> (v: Vec<char>)
    ensures
        v@ == keep_whitelisted(input@, whitelist@),
{
    let n = input.unicode_len();
    let mut v: Vec<char> = Vec::new();
    let mut i: usize = 0;
    while i < n
        invariant
            n == input@.len(),
            i <= n,
            v@ == keep_whitelisted(input@.subrange(0, i as int), whitelist@),
        decreases n - i,
    {
        let c = input.get_char(i);
        proof {
            assert(input@.subrange(0, i as int + 1).drop_last() =~= input@.subrange(0, i as int));
            assert(input@.subrange(0, i as int + 1).last() == input@[i as int]);
        }
        if char_in(whitelist, c) {
            v.push(c);
        }
        i = i + 1;
    }
    proof {
        assert(input@.subrange(0, n as int) =~= input@);
    }
    v
}

/// Removes the leading spaces, then the trailing stripped characters.
fn strip_ends(v: &mut Vec<char>, dots: bool)
    ensures
        final(v)@ == strip_trailing(strip_leading_spaces(old(v)@), dots),
{
    while v.len() > 0 && v[0] == ' '
        invariant
            strip_leading_spaces(v@) == strip_leading_spaces(old(v)@),
        decreases v@.len(),
    {
        let ghost prev = v@;
        let _ = v.remove(0);
        proof {
            assert(prev.remove(0) =~= prev.drop_first());
        }
    }
    proof {
        assert(strip_leading_spaces(v@) == v@);
    }
    let ghost led = v@;
    while v.len() > 0 && (v[v.len() - 1] == ' ' || (dots && v[v.len() - 1] == '.'))
        invariant
            strip_trailing(v@, dots) == strip_trailing(led, dots),
        decreases v@.len(),
    {
        let ghost prev = v@;
        let _ = v.pop();
        proof {
            assert(v@ =~= prev.drop_last());
        }
    }
    proof {
        assert(strip_trailing(v@, dots) == v@);
    }
}

/// Keeps only the trailing `max` characters of an over-long name.
fn truncate_front(v: &mut Vec<char>, max: usize)
    ensures
        final(v)@ == keep_tail(old(v)@, max as nat),
{
    if v.len() > max {
        let excess = v.len() - max;
        let mut k: usize = 0;
        while k < excess
            invariant
                k <= excess,
                excess == old(v)@.len() - max,
                max < old(v)@.len(),
                v@ == old(v)@.subrange(k as int, old(v)@.len() as int),
            decreases excess - k,
        {
            let ghost prev = v@;
            let _ = v.remove(0);
            proof {
                assert(prev.remove(0) =~= old(v)@.subrange(k as int + 1, old(v)@.len() as int));
            }
            k = k + 1;
        }
    }
}

/// The directory-name sanitizer: keeps only whitelisted characters, strips
/// leading spaces, strips trailing spaces and dots, and of an over-long
/// result keeps only the trailing `max_len` characters.
pub fn sanitize_string(input: &str, whitelist: &str, max_len: usize) -> (r: String)
    ensures
        r@ == sanitize_spec(input@, whitelist@, max_len as nat),
{
    let mut v = filter_to_vec(input, whitelist);
    strip_ends(&mut v, true);
    truncate_front(&mut v, max_len);
    chars_to_string(&v)
}

/// The file-name sanitizer: the same whitelist and length bound, but only
/// whitespace is trimmed, so trailing dots survive.
pub fn sanitize_file_name(input: &str, whitelist: &str, max_len: usize) -> (r: String)
    ensures
        r@ == sanitize_file_name_spec(input@, whitelist@, max_len as nat),
{
    let mut v = filter_to_vec(input, whitelist);
    strip_ends(&mut v, false);
    truncate_front(&mut v, max_len);
    chars_to_string(&v)
}

/// Every character the filter keeps occurs in the whitelist.
proof fn lemma_keep_whitelisted_members(s: Seq<char>, wl: Seq<char>)
    ensures
        forall|i: int|
            0 <= i < keep_whitelisted(s, wl).len() ==> wl.contains(
                #[trigger] keep_whitelisted(s, wl)[i],
            ),
    decreases s.len(),
{
    if s.len() > 0 {
        lemma_keep_whitelisted_members(s.drop_last(), wl);
        let rest = keep_whitelisted(s.drop_last(), wl);
        if wl.contains(s.last()) {
            assert(keep_whitelisted(s, wl) == rest.push(s.last()));
            assert forall|i: int|
                0 <= i < keep_whitelisted(s, wl).len() implies wl.contains(
                keep_whitelisted(s, wl)[i],
            ) by {
                if i < rest.len() {
                    assert(keep_whitelisted(s, wl)[i] == rest[i]);
                } else {
                    assert(keep_whitelisted(s, wl)[i] == s.last());
                }
            }
        } else {
            assert(keep_whitelisted(s, wl) == rest);
        }
    }
}

/// On a string made only of whitelisted characters the filter is the
/// identity.
proof fn lemma_keep_whitelisted_identity(s: Seq<char>, wl: Seq<char>)
    requires
        forall|i: int| 0 <= i < s.len() ==> wl.contains(#[trigger] s[i]),
    ensures
        keep_whitelisted(s, wl) == s,
    decreases s.len(),
{
    if s.len() == 0 {
        assert(keep_whitelisted(s, wl) =~= s);
    } else {
        lemma_keep_whitelisted_identity(s.drop_last(), wl);
        assert(wl.contains(s.last()));
        assert(s.drop_last().push(s.last()) =~= s);
    }
}

/// Trimming the leading spaces keeps every remaining character whitelisted.
proof fn lemma_strip_leading_members(s: Seq<char>, wl: Seq<char>)
    requires
        forall|i: int| 0 <= i < s.len() ==> wl.contains(#[trigger] s[i]),
    ensures
        forall|i: int|
            0 <= i < strip_leading_spaces(s).len() ==> wl.contains(
                #[trigger] strip_leading_spaces(s)[i],
            ),
    decreases s.len(),
{
    if s.len() > 0 && s[0] == ' ' {
        assert(forall|i: int|
            0 <= i < s.drop_first().len() ==> wl.contains(#[trigger] s.drop_first()[i]));
        lemma_strip_leading_members(s.drop_first(), wl);
        assert(strip_leading_spaces(s) == strip_leading_spaces(s.drop_first()));
    }
}

/// Trimming the trailing characters keeps every remaining character
/// whitelisted.
proof fn lemma_strip_trailing_members(s: Seq<char>, wl: Seq<char>, dots: bool)
    requires
        forall|i: int| 0 <= i < s.len() ==> wl.contains(#[trigger] s[i]),
    ensures
        forall|i: int|
            0 <= i < strip_trailing(s, dots).len() ==> wl.contains(
                #[trigger] strip_trailing(s, dots)[i],
            ),
    decreases s.len(),
{
    if s.len() > 0 && is_stripped_char(s.last(), dots) {
        assert(forall|i: int|
            0 <= i < s.drop_last().len() ==> wl.contains(#[trigger] s.drop_last()[i]));
        lemma_strip_trailing_members(s.drop_last(), wl, dots);
        assert(strip_trailing(s, dots) == strip_trailing(s.drop_last(), dots));
    }
}

/// After the trailing trim, a nonempty result never ends in a stripped
/// character.
proof fn lemma_strip_trailing_last(s: Seq<char>, dots: bool)
    ensures
        strip_trailing(s, dots).len() > 0 ==> !is_stripped_char(
            strip_trailing(s, dots).last(),
            dots,
        ),
    decreases s.len(),
{
    if s.len() > 0 && is_stripped_char(s.last(), dots) {
        lemma_strip_trailing_last(s.drop_last(), dots);
    }
}

/// The sanitized name never exceeds the configured maximum length.
pub proof fn lemma_sanitize_length_bounded(s: Seq<char>, wl: Seq<char>, max: nat)
    ensures
        sanitize_spec(s, wl, max).len() <= max,
        sanitize_file_name_spec(s, wl, max).len() <= max,
{
}

/// Sanitizing is idempotent, except when the length bound cuts the name
/// just before a space: a result that does not begin with a space
/// sanitizes to itself.
proof fn lemma_pipeline_idempotent(s: Seq<char>, wl: Seq<char>, max: nat, dots: bool)
    requires
        sanitize_pipeline(s, wl, max, dots).len() > 0 ==> sanitize_pipeline(s, wl, max, dots)[0]
            != ' ',
    ensures
        sanitize_pipeline(sanitize_pipeline(s, wl, max, dots), wl, max, dots)
            == sanitize_pipeline(s, wl, max, dots),
{
    let f = keep_whitelisted(s, wl);
    let led = strip_leading_spaces(f);
    let z = strip_trailing(led, dots);
    let y = sanitize_pipeline(s, wl, max, dots);
    lemma_keep_whitelisted_members(s, wl);
    lemma_strip_leading_members(f, wl);
    lemma_strip_trailing_members(led, wl, dots);
    lemma_strip_trailing_last(led, dots);
    // every character of y is whitelisted, and y keeps the last character of z
    assert(forall|i: int| 0 <= i < y.len() ==> wl.contains(#[trigger] y[i])) by {
        if z.len() > max {
            assert(forall|i: int| 0 <= i < y.len() ==> y[i] == z[i + z.len() - max]);
        }
    }
    lemma_keep_whitelisted_identity(y, wl);
    assert(keep_whitelisted(y, wl) == y);
    assert(strip_leading_spaces(y) == y);
    if y.len() > 0 {
        assert(y.last() == z.last()) by {
            if z.len() > max {
                assert(y[y.len() - 1] == z[z.len() - 1]);
            }
        }
    }
    assert(strip_trailing(y, dots) == y);
    assert(keep_tail(y, max) == y);
}

/// The directory-name sanitizer is idempotent on every input whose
/// sanitized form does not begin with a space (the length bound keeps the
/// tail of a long name, which can expose such a space).
pub proof fn lemma_sanitize_idempotent(s: Seq<char>, wl: Seq<char>, max: nat)
    requires
        sanitize_spec(s, wl, max).len() > 0 ==> sanitize_spec(s, wl, max)[0] != ' ',
    ensures
        sanitize_spec(sanitize_spec(s, wl, max), wl, max) == sanitize_spec(s, wl, max),
{
    lemma_pipeline_idempotent(s, wl, max, true);
}

/// The file-name sanitizer is idempotent under the same condition.
pub proof fn lemma_sanitize_file_name_idempotent(s: Seq<char>, wl: Seq<char>, max: nat)
    requires
        sanitize_file_name_spec(s, wl, max).len() > 0 ==> sanitize_file_name_spec(s, wl, max)[0]
            != ' ',
    ensures
        sanitize_file_name_spec(sanitize_file_name_spec(s, wl, max), wl, max)
            == sanitize_file_name_spec(s, wl, max),
{
    lemma_pipeline_idempotent(s, wl, max, false);
}

} // verus!
