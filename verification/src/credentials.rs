//! The credential store: username/secret-digest records loaded once from a
//! flat list, one `<hex digest>;<username>` record per line, and the
//! digest-first lookup that authentication is built on.

use vstd::prelude::*;
use vstd::string::StrSliceExecFns;

verus! {

/// One record of the credential list.
pub struct Credential {
    /// Hex digest of the user's secret material.
    pub digest: String,
    /// The username, also the name of the tenant's home directory.
    pub username: String,
}

/// Why the credential list was rejected at startup.
#[derive(Debug, Clone, Copy, PartialEq, Eq, Structural)]
pub enum CredentialError {
    /// A line could not be split into the two `;`-separated fields.
    UnsplittableLine,
}

/// The first `;` of `s` stands at position `k`.
pub open spec fn splits_at(s: Seq<char>, k: int) -> bool {
    &&& 0 <= k < s.len()
    &&& s[k] == ';'
    &&& forall|j: int| 0 <= j < k ==> s[j] != ';'
}

/// The credential a well-formed line holds: the digest before the first
/// `;`, the username after it.
pub open spec fn line_credential(s: Seq<char>, k: int, c: Credential) -> bool {
    c.digest@ == s.subrange(0, k) && c.username@ == s.subrange(k + 1, s.len() as int)
}

/// The position of the first `;` of a line that has one.
pub open spec fn semi_index(s: Seq<char>) -> int {
    choose|k: int| splits_at(s, k)
}

/// `c` is what parsing the line `s` yields.
pub open spec fn parses_to(s: Seq<char>, c: Credential) -> bool {
    splits_at(s, semi_index(s)) && line_credential(s, semi_index(s), c)
}

/// Splits one line of the credential list at its first `;`.
fn split_line(line: &str) -> (r: Result<Credential, CredentialError>)
    ensures
        r is Ok <==> line@.contains(';'),
        r matches Ok(c) ==> parses_to(line@, c),
{
    let n = line.unicode_len();
    let mut i: usize = 0;
    while i < n
        invariant
            n == line@.len(),
            i <= n,
            forall|j: int| 0 <= j < i ==> line@[j] != ';',
        decreases n - i,
    {
        if line.get_char(i) == ';' {
            let digest = line.substring_char(0, i).to_owned();
            let username = line.substring_char(i + 1, n).to_owned();
            let c = Credential { digest, username };
            proof {
                assert(line@[i as int] == ';');
                assert(splits_at(line@, i as int));
                let k = semi_index(line@);
                assert(splits_at(line@, k));
                if k < i as int {
                    assert(line@[k] == ';');
                    assert(false);
                } else if k > i as int {
                    assert(line@[i as int] != ';');
                    assert(false);
                }
                assert(line_credential(line@, i as int, c));
            }
            return Ok(c);
        }
        i = i + 1;
    }
    Err(CredentialError::UnsplittableLine)
}

/// First-match, digest-first lookup over the records.
pub open spec fn lookup_spec(records: Seq<Credential>, digest: Seq<char>) -> Option<Seq<char>>
    decreases records.len(),
{
    if records.len() == 0 {
        None
    } else if records[0].digest@ == digest {
        Some(records[0].username@)
    } else {
        lookup_spec(records.drop_first(), digest)
    }
}

/// The lookup hits exactly when some record carries the digest.
pub proof fn lemma_lookup_spec_hit(records: Seq<Credential>, digest: Seq<char>)
    ensures
        lookup_spec(records, digest) is Some <==> exists|i: int|
            0 <= i < records.len() && (#[trigger] records[i]).digest@ == digest,
    decreases records.len(),
{
    if records.len() > 0 {
        lemma_lookup_spec_hit(records.drop_first(), digest);
        if records[0].digest@ == digest {
        } else {
            assert(forall|i: int|
                0 <= i < records.drop_first().len() ==> #[trigger] records.drop_first()[i]
                    == records[i + 1]);
            if exists|i: int| 0 <= i < records.len() && (#[trigger] records[i]).digest@ == digest {
                let i = choose|i: int|
                    0 <= i < records.len() && (#[trigger] records[i]).digest@ == digest;
                assert(records.drop_first()[i - 1].digest@ == digest);
            }
        }
    }
}

/// The read-only, process-lifetime credential store.
pub struct CredentialStore {
    /// The records, in the order the backing list held them.
    pub records: Vec<Credential>,
}

impl CredentialStore {
    /// Loads the store from the lines of the backing list. Every line must
    /// split into the two `;`-separated fields, else the whole load fails.
    pub fn from_lines(lines: &Vec<String>) -> (r: Result<CredentialStore, CredentialError>)
        ensures
            r is Ok <==> (forall|i: int|
                0 <= i < lines@.len() ==> (#[trigger] lines@[i])@.contains(';')),
            r matches Ok(s) ==> {
                &&& s.records@.len() == lines@.len()
                &&& forall|i: int|
                    0 <= i < lines@.len() ==> parses_to(lines@[i]@, #[trigger] s.records@[i])
            },
    {
        let mut records: Vec<Credential> = Vec::new();
        let mut i: usize = 0;
        while i < lines.len()
            invariant
                i <= lines@.len(),
                records@.len() == i,
                forall|j: int| 0 <= j < i ==> (#[trigger] lines@[j])@.contains(';'),
                forall|j: int| 0 <= j < i ==> parses_to(lines@[j]@, #[trigger] records@[j]),
            decreases lines@.len() - i,
        {
            match split_line(lines[i].as_str()) {
                Ok(c) => {
                    let ghost before = records@;
                    let ghost cred = c;
                    records.push(c);
                    proof {
                        assert(records@[i as int] == cred);
                        assert(forall|j: int| 0 <= j < i ==> records@[j] == before[j]);
                    }
                },
                Err(e) => {
                    return Err(e);
                },
            }
            i = i + 1;
        }
        Ok(CredentialStore { records })
    }

    /// Looks a digest up; the first matching record wins.
    pub fn lookup(&self, digest: &str) -> (r: Option<String>)
        ensures
            match r {
                Some(u) => lookup_spec(self.records@, digest@) == Some(u@),
                None => lookup_spec(self.records@, digest@) is None,
            },
    {
        let n = self.records.len();
        let mut i: usize = 0;
        proof {
            assert(self.records@.skip(0) =~= self.records@);
        }
        while i < n
            invariant
                n == self.records@.len(),
                i <= n,
                lookup_spec(self.records@.skip(i as int), digest@) == lookup_spec(
                    self.records@,
                    digest@,
                ),
            decreases n - i,
        {
            let ghost tail = self.records@.skip(i as int);
            proof {
                assert(tail[0] == self.records@[i as int]);
                assert(tail.drop_first() =~= self.records@.skip(i as int + 1));
            }
            if crate::strutil::str_eq(self.records[i].digest.as_str(), digest) {
                proof {
                    assert(lookup_spec(tail, digest@) == Some(tail[0].username@));
                }
                return Some(self.records[i].username.clone());
            }
            i = i + 1;
        }
        proof {
            assert(self.records@.skip(n as int) =~= Seq::<Credential>::empty());
        }
        None
    }
}

} // verus!
