use vstd::prelude::*;

use crate::text::{
    chars_of, lemma_seq_lt_irreflexive, lemma_seq_lt_transitive, lex_lt, matches_at, seq_lt,
    split_at_char, split_chars, starts_with, str_eq, string_from_chars, trim_end_all,
    trim_prefix_all, trim_start_all, trim_suffix_all,
};

verus! {

broadcast use vstd::string::group_string_axioms;

/// A commit's object name, as git prints it.
#[derive(Debug, Eq, Hash, PartialOrd, Ord)]
pub struct CommitHash(String);

impl View for CommitHash {
    type V = Seq<char>;

    closed spec fn view(&self) -> Seq<char> {
        self.0@
    }
}

impl PartialEq for CommitHash {
    fn eq(&self, other: &Self) -> (r: bool) {
        self.0 == other.0
    }
}

impl vstd::std_specs::cmp::PartialEqSpecImpl for CommitHash {
    open spec fn obeys_eq_spec() -> bool {
        true
    }

    open spec fn eq_spec(&self, other: &Self) -> bool {
        self@ == other@
    }
}

impl Clone for CommitHash {
    fn clone(&self) -> (r: Self)
        ensures
            r == *self,
    {
        CommitHash(self.0.clone())
    }
}

impl Default for CommitHash {
    fn default() -> (r: Self)
        ensures
            r@ == Seq::<char>::empty(),
    {
        CommitHash(String::new())
    }
}

/// The first `n` characters of `s` (all of them when it is shorter).
pub open spec fn prefix_upto(s: Seq<char>, n: int) -> Seq<char> {
    if s.len() <= n {
        s
    } else {
        s.take(n)
    }
}

impl CommitHash {
    /// A hash with the given text.
    pub fn new(s: &str) -> (h: CommitHash)
        ensures
            h@ == s@,
    {
        CommitHash(s.to_owned())
    }

    /// The abbreviated form: the first seven characters.
    pub fn as_short_hash(&self) -> (r: String)
        ensures
            r@ == prefix_upto(self@, 7),
    {
        let cs = chars_of(self.0.as_str());
        let mut out: Vec<char> = Vec::new();
        let mut i: usize = 0;
        while i < cs.len() && i < 7
            invariant
                i <= cs@.len(),
                i <= 7,
                cs@ == self@,
                out@ == cs@.take(i as int),
            decreases cs@.len() - i,
        {
            out.push(cs[i]);
            proof {
                assert(cs@.take(i + 1) == cs@.take(i as int).push(cs@[i as int]));
            }
            i += 1;
        }
        proof {
            if cs@.len() <= 7 {
                assert(cs@.take(i as int) == cs@);
            }
        }
        string_from_chars(&out)
    }

    /// The full text of the hash.
    pub fn as_str(&self) -> (r: &str)
        ensures
            r@ == self@,
    {
        self.0.as_str()
    }

    /// Whether two hashes name the same object.
    pub fn same_as(&self, other: &CommitHash) -> (r: bool)
        ensures
            r == (self@ == other@),
    {
        self.0 == other.0
    }
}

/// Whether a commit is an ordinary commit or a stash entry.
#[derive(Debug, Clone, Copy, PartialEq, Eq, Structural)]
pub enum CommitType {
    Commit,
    Stash,
}

impl Default for CommitType {
    fn default() -> (r: Self)
        ensures
            r == CommitType::Commit,
    {
        CommitType::Commit
    }
}

/// A point in time as git records it: seconds since the epoch, the
/// sub-second part, and the offset of the author's time zone.
#[derive(Debug, Clone, Copy, PartialEq, Eq, Structural)]
pub struct CommitDate {
    pub timestamp: i64,
    pub nanos: u32,
    pub offset_seconds: i32,
}

impl Default for CommitDate {
    fn default() -> (r: Self)
        ensures
            r == (CommitDate { timestamp: 0, nanos: 0, offset_seconds: 0 }),
    {
        CommitDate { timestamp: 0, nanos: 0, offset_seconds: 0 }
    }
}

/// Two dates denote the same instant (the zone they are written in is not
/// compared).
pub open spec fn same_instant(a: CommitDate, b: CommitDate) -> bool {
    a.timestamp == b.timestamp && a.nanos == b.nanos
}

/// One commit as `git log` describes it.
#[derive(Debug)]
pub struct Commit {
    pub commit_hash: CommitHash,
    pub author_name: String,
    pub author_email: String,
    pub author_date: CommitDate,
    pub committer_name: String,
    pub committer_email: String,
    pub committer_date: CommitDate,
    pub subject: String,
    pub body: String,
    pub parent_commit_hashes: Vec<CommitHash>,
    pub commit_type: CommitType,
}

/// Two commits hold the same fields.
pub open spec fn same_commit(a: Commit, b: Commit) -> bool {
    &&& a.commit_hash == b.commit_hash
    &&& a.author_name == b.author_name
    &&& a.author_email == b.author_email
    &&& a.author_date == b.author_date
    &&& a.committer_name == b.committer_name
    &&& a.committer_email == b.committer_email
    &&& a.committer_date == b.committer_date
    &&& a.subject == b.subject
    &&& a.body == b.body
    &&& a.parent_commit_hashes@ == b.parent_commit_hashes@
    &&& a.commit_type == b.commit_type
}

impl Clone for Commit {
    fn clone(&self) -> (r: Self)
        ensures
            same_commit(r, *self),
    {
        let parents = self.parent_commit_hashes.clone();
        proof {
            assert(parents@ =~= self.parent_commit_hashes@);
        }
        Commit {
            commit_hash: self.commit_hash.clone(),
            author_name: self.author_name.clone(),
            author_email: self.author_email.clone(),
            author_date: self.author_date,
            committer_name: self.committer_name.clone(),
            committer_email: self.committer_email.clone(),
            committer_date: self.committer_date,
            subject: self.subject.clone(),
            body: self.body.clone(),
            parent_commit_hashes: parents,
            commit_type: self.commit_type,
        }
    }
}

/// The kinds of ref that can be deleted from the refs view.
#[derive(Debug, Clone, Copy, PartialEq, Eq, Structural)]
pub enum RefType {
    Tag,
    Branch,
    RemoteBranch,
}

/// A named pointer at a commit.
#[derive(Debug)]
pub enum Ref {
    Tag { name: String, target: CommitHash },
    Branch { name: String, target: CommitHash },
    RemoteBranch { name: String, target: CommitHash },
    Stash { name: String, message: String, target: CommitHash },
}

impl Clone for Ref {
    fn clone(&self) -> (r: Self)
        ensures
            r == *self,
    {
        match self {
            Ref::Tag { name, target } => Ref::Tag { name: name.clone(), target: target.clone() },
            Ref::Branch { name, target } => Ref::Branch { name: name.clone(), target: target.clone() },
            Ref::RemoteBranch { name, target } => Ref::RemoteBranch {
                name: name.clone(),
                target: target.clone(),
            },
            Ref::Stash { name, message, target } => Ref::Stash {
                name: name.clone(),
                message: message.clone(),
                target: target.clone(),
            },
        }
    }
}

/// The name of a ref.
pub open spec fn ref_name(r: Ref) -> Seq<char> {
    match r {
        Ref::Tag { name, .. } => name@,
        Ref::Branch { name, .. } => name@,
        Ref::RemoteBranch { name, .. } => name@,
        Ref::Stash { name, .. } => name@,
    }
}

/// The commit a ref points at.
pub open spec fn ref_target(r: Ref) -> Seq<char> {
    match r {
        Ref::Tag { target, .. } => target@,
        Ref::Branch { target, .. } => target@,
        Ref::RemoteBranch { target, .. } => target@,
        Ref::Stash { target, .. } => target@,
    }
}

impl Ref {
    pub fn name(&self) -> (r: &str)
        ensures
            r@ == ref_name(*self),
    {
        match self {
            Ref::Tag { name, .. } => name.as_str(),
            Ref::Branch { name, .. } => name.as_str(),
            Ref::RemoteBranch { name, .. } => name.as_str(),
            Ref::Stash { name, .. } => name.as_str(),
        }
    }

    pub fn target(&self) -> (r: &CommitHash)
        ensures
            r@ == ref_target(*self),
    {
        match self {
            Ref::Tag { target, .. } => target,
            Ref::Branch { target, .. } => target,
            Ref::RemoteBranch { target, .. } => target,
            Ref::Stash { target, .. } => target,
        }
    }
}

/// Where HEAD points: a branch, or a commit directly.
#[derive(Debug)]
pub enum Head {
    Branch { name: String },
    Detached { target: CommitHash },
}

impl Clone for Head {
    fn clone(&self) -> (r: Self)
        ensures
            r == *self,
    {
        match self {
            Head::Branch { name } => Head::Branch { name: name.clone() },
            Head::Detached { target } => Head::Detached { target: target.clone() },
        }
    }
}

/// The order in which `git log` lists commits.
#[derive(Debug, Clone, Copy, PartialEq, Eq, Structural)]
pub enum SortCommit {
    Chronological,
    Topological,
}

/// One changed path of a commit.
#[derive(Debug)]
pub enum FileChange {
    Add { path: String },
    Modify { path: String },
    Delete { path: String },
    Move { from: String, to: String },
}

// ---------------------------------------------------------------------------
// Reading `git log`
// ---------------------------------------------------------------------------

/// The placeholders of the `--pretty` format, in the order the fields of a
/// record come out. With `mailmap` the author and committer names and emails
/// are the ones `.mailmap` maps them to (`%aN`, `%aE`, `%cN`, `%cE`), else
/// the ones recorded in the commit.
pub open spec fn commit_format_fields_of(mailmap: bool) -> Seq<Seq<char>> {
    if mailmap {
        seq!["%H"@, "%aN"@, "%aE"@, "%ad"@, "%cN"@, "%cE"@, "%cd"@, "%s"@, "%b"@, "%P"@]
    } else {
        seq!["%H"@, "%an"@, "%ae"@, "%ad"@, "%cn"@, "%ce"@, "%cd"@, "%s"@, "%b"@, "%P"@]
    }
}

/// The placeholders read without `.mailmap`.
pub open spec fn commit_format_fields() -> Seq<Seq<char>> {
    commit_format_fields_of(false)
}

/// The `--pretty` format used to read commits: the placeholders joined by the
/// unit separator (written `%x1f` for git to expand), the identities mapped
/// through `.mailmap` when `mailmap` is set.
pub fn commits_format(mailmap: bool) -> (r: String)
    ensures
        r@ == crate::text::join_chars(commit_format_fields_of(mailmap), "%x1f"@),
{
    let (author_name, author_email, committer_name, committer_email) = if mailmap {
        ("%aN", "%aE", "%cN", "%cE")
    } else {
        ("%an", "%ae", "%cn", "%ce")
    };
    let fields: Vec<String> = vec![
        "%H".to_owned(),
        author_name.to_owned(),
        author_email.to_owned(),
        "%ad".to_owned(),
        committer_name.to_owned(),
        committer_email.to_owned(),
        "%cd".to_owned(),
        "%s".to_owned(),
        "%b".to_owned(),
        "%P".to_owned(),
    ];
    let r = crate::text::join_strings(&fields, "%x1f");
    proof {
        assert(fields@.map_values(|p: String| p@) =~= commit_format_fields_of(mailmap));
    }
    r
}

/// The `--pretty` format used to read commits with the identities as
/// recorded.
pub fn load_commits_format() -> (r: String)
    ensures
        r@ == crate::text::join_chars(commit_format_fields(), "%x1f"@),
{
    commits_format(false)
}

/// What `chrono::DateTime::parse_from_rfc3339` reads from a text: seconds
/// since the epoch, the sub-second nanoseconds and the zone offset in
/// seconds, or nothing when the text is not an RFC 3339 date.
pub uninterp spec fn rfc3339_date(s: Seq<char>) -> Option<(i64, u32, i32)>;

/// The date a parsed RFC 3339 triple denotes.
pub open spec fn date_of(t: (i64, u32, i32)) -> CommitDate {
    CommitDate { timestamp: t.0, nanos: t.1, offset_seconds: t.2 }
}

/// Parses an ISO 8601 / RFC 3339 date with `chrono::DateTime::parse_from_rfc3339`.
/// Trusted: the result is whatever chrono reads, named by `rfc3339_date`.
#[verifier::external_body]
fn parse_iso_date(s: &str) -> (r: Option<(i64, u32, i32)>)
    ensures
        r == rfc3339_date(s@),
{
    match chrono::DateTime::parse_from_rfc3339(s) {
        Ok(d) => Some((d.timestamp(), d.timestamp_subsec_nanos(), d.offset().local_minus_utc())),
        Err(_) => None,
    }
}

/// The parent hashes listed in `%P`: none for an empty field, else the
/// pieces between spaces.
pub open spec fn parent_hashes_of(s: Seq<char>) -> Seq<Seq<char>> {
    if s.len() == 0 {
        Seq::empty()
    } else {
        split_chars(s, ' ')
    }
}

/// Reads the space-separated parent hashes of a commit.
pub fn parse_parent_commit_hashes(s: &str) -> (r: Vec<CommitHash>)
    ensures
        r@.len() == parent_hashes_of(s@).len(),
        forall|i: int| 0 <= i < r@.len() ==> #[trigger] r@[i]@ == parent_hashes_of(s@)[i],
{
    let cs = chars_of(s);
    let mut out: Vec<CommitHash> = Vec::new();
    if cs.len() == 0 {
        return out;
    }
    let parts = split_at_char(&cs, ' ');
    let mut i: usize = 0;
    while i < parts.len()
        invariant
            i <= parts@.len(),
            cs@ == s@,
            cs@.len() > 0,
            parts@.len() == split_chars(s@, ' ').len(),
            forall|j: int| 0 <= j < parts@.len() ==> #[trigger] parts@[j]@ == split_chars(s@, ' ')[j],
            out@.len() == i,
            forall|j: int| 0 <= j < i ==> #[trigger] out@[j]@ == split_chars(s@, ' ')[j],
        decreases parts@.len() - i,
    {
        let t = string_from_chars(&parts[i]);
        out.push(CommitHash::new(t.as_str()));
        i += 1;
    }
    out
}

/// `c` holds the fields of a `git log` record: hash, author, author date,
/// committer, committer date, subject, body and parents, in that order.
pub open spec fn commit_fields_match(
    c: Commit,
    parts: Seq<Seq<char>>,
    author_date: CommitDate,
    committer_date: CommitDate,
    commit_type: CommitType,
) -> bool {
    &&& c.commit_hash@ == parts[0]
    &&& c.author_name@ == parts[1]
    &&& c.author_email@ == parts[2]
    &&& c.author_date == author_date
    &&& c.committer_name@ == parts[4]
    &&& c.committer_email@ == parts[5]
    &&& c.committer_date == committer_date
    &&& c.subject@ == parts[7]
    &&& c.body@ == parts[8]
    &&& c.parent_commit_hashes@.len() == parent_hashes_of(parts[9]).len()
    &&& forall|i: int|
        0 <= i < c.parent_commit_hashes@.len() ==> #[trigger] c.parent_commit_hashes@[i]@
            == parent_hashes_of(parts[9])[i]
    &&& c.commit_type == commit_type
}

/// Builds a commit from the ten fields of a record and its two parsed dates;
/// nothing when either date could not be read.
pub fn build_commit(
    parts: &Vec<Vec<char>>,
    author_date: Option<(i64, u32, i32)>,
    committer_date: Option<(i64, u32, i32)>,
    commit_type: CommitType,
) -> (r: Option<Commit>)
    requires
        parts@.len() == 10,
    ensures
        r is Some <==> (author_date is Some && committer_date is Some),
        r is Some ==> commit_fields_match(
            r->0,
            parts@.map_values(|p: Vec<char>| p@),
            date_of(author_date->0),
            date_of(committer_date->0),
            commit_type,
        ),
{
    let a = match author_date {
        Some(t) => t,
        None => { return None; },
    };
    let d = match committer_date {
        Some(t) => t,
        None => { return None; },
    };
    let hash = string_from_chars(&parts[0]);
    let parents = string_from_chars(&parts[9]);
    Some(Commit {
        commit_hash: CommitHash::new(hash.as_str()),
        author_name: string_from_chars(&parts[1]),
        author_email: string_from_chars(&parts[2]),
        author_date: CommitDate { timestamp: a.0, nanos: a.1, offset_seconds: a.2 },
        committer_name: string_from_chars(&parts[4]),
        committer_email: string_from_chars(&parts[5]),
        committer_date: CommitDate { timestamp: d.0, nanos: d.1, offset_seconds: d.2 },
        subject: string_from_chars(&parts[7]),
        body: string_from_chars(&parts[8]),
        parent_commit_hashes: parse_parent_commit_hashes(parents.as_str()),
        commit_type,
    })
}

/// Reads one NUL-terminated `git log` record (fields separated by the unit
/// separator). Nothing when the record does not have exactly ten fields or a
/// date does not parse.
pub fn parse_commit_record(record: &str, commit_type: CommitType) -> (r: Option<Commit>)
    ensures
        ({
            let parts = split_chars(record@, '\u{1f}');
            &&& r is Some <==> (parts.len() == 10 && rfc3339_date(parts[3]) is Some && rfc3339_date(
                parts[6],
            ) is Some)
            &&& r is Some ==> commit_fields_match(
                r->0,
                parts,
                date_of(rfc3339_date(parts[3])->0),
                date_of(rfc3339_date(parts[6])->0),
                commit_type,
            )
        }),
{
    let cs = chars_of(record);
    let parts = split_at_char(&cs, '\u{1f}');
    let ghost views = split_chars(record@, '\u{1f}');
    if parts.len() != 10 {
        return None;
    }
    proof {
        assert(parts@.map_values(|p: Vec<char>| p@) =~= views);
    }
    let author_text = string_from_chars(&parts[3]);
    let committer_text = string_from_chars(&parts[6]);
    let author_date = parse_iso_date(author_text.as_str());
    let committer_date = parse_iso_date(committer_text.as_str());
    build_commit(&parts, author_date, committer_date, commit_type)
}

// ---------------------------------------------------------------------------
// Finding commits by hash
// ---------------------------------------------------------------------------

/// One step of the bucket key: multiply by 31 and add the character, both
/// wrapping.
pub open spec fn key_step(h: u64, c: char) -> u64 {
    h.wrapping_mul(31).wrapping_add(c as u64)
}

/// The bucket key of a hash text.
pub open spec fn hash_key(s: Seq<char>) -> u64
    decreases s.len(),
{
    if s.len() == 0 {
        0
    } else {
        key_step(hash_key(s.drop_last()), s.last())
    }
}

fn compute_key(h: &CommitHash) -> (k: u64)
    ensures
        k == hash_key(h@),
{
    let cs = chars_of(h.as_str());
    let mut k: u64 = 0;
    let mut i: usize = 0;
    while i < cs.len()
        invariant
            i <= cs@.len(),
            cs@ == h@,
            k == hash_key(cs@.take(i as int)),
        decreases cs@.len() - i,
    {
        proof {
            assert(cs@.take(i + 1).drop_last() == cs@.take(i as int));
        }
        let c = cs[i];
        k = k.wrapping_mul(31).wrapping_add(c as u64);
        i += 1;
    }
    proof {
        assert(cs@.take(i as int) == cs@);
    }
    k
}

/// The texts of a list of hashes.
pub open spec fn hash_views(hs: Seq<CommitHash>) -> Seq<Seq<char>> {
    hs.map_values(|h: CommitHash| h@)
}

/// The first row whose hash is `h`, if any.
pub open spec fn is_first_row(hashes: Seq<Seq<char>>, h: Seq<char>, r: Option<usize>) -> bool {
    match r {
        Some(i) => i < hashes.len() && hashes[i as int] == h && forall|k: int|
            0 <= k < i ==> #[trigger] hashes[k] != h,
        None => forall|k: int| 0 <= k < hashes.len() ==> #[trigger] hashes[k] != h,
    }
}

/// A bucket lists, in increasing order, exactly the rows below `n` whose key
/// is `key`.
pub open spec fn bucket_ok(b: Seq<usize>, hashes: Seq<Seq<char>>, key: u64, n: int) -> bool {
    &&& forall|i: int, j: int| 0 <= i < j < b.len() ==> b[i] < b[j]
    &&& forall|i: int| 0 <= i < b.len() ==> #[trigger] b[i] < n && hash_key(hashes[b[i] as int]) == key
    &&& forall|r: int|
        0 <= r < n && #[trigger] hash_key(hashes[r]) == key ==> exists|i: int|
            0 <= i < b.len() && b[i] == r
}

/// The listed commits, with a table from hash keys to rows for looking them
/// up by hash.
pub struct CommitIndex {
    hashes: Vec<CommitHash>,
    buckets: std::collections::HashMap<u64, Vec<usize>>,
}

impl CommitIndex {
    /// The hashes, by row.
    pub closed spec fn rows(&self) -> Seq<Seq<char>> {
        hash_views(self.hashes@)
    }

    /// The number of listed commits.
    pub fn len(&self) -> (n: usize)
        ensures
            n == self.rows().len(),
    {
        self.hashes.len()
    }

    /// Every bucket is exact and every row has one.
    pub closed spec fn wf(&self) -> bool {
        let hs = hash_views(self.hashes@);
        &&& forall|k: u64| #[trigger]
            self.buckets@.contains_key(k) ==> bucket_ok(self.buckets@[k]@, hs, k, hs.len() as int)
        &&& forall|r: int|
            0 <= r < hs.len() ==> self.buckets@.contains_key(#[trigger] hash_key(hs[r]))
    }

    /// Indexes the hashes of the listed commits, row by row.
    pub fn new(hashes: &Vec<CommitHash>) -> (ix: CommitIndex)
        ensures
            ix.wf(),
            ix.rows() == hash_views(hashes@),
    {
        broadcast use vstd::std_specs::hash::group_hash_axioms;

        let n = hashes.len();
        let mut own: Vec<CommitHash> = Vec::new();
        let mut buckets: std::collections::HashMap<u64, Vec<usize>> = std::collections::HashMap::new();
        let ghost all = hash_views(hashes@);
        let mut r: usize = 0;
        while r < n
            invariant
                r <= n,
                n == hashes@.len(),
                all == hash_views(hashes@),
                hash_views(own@) == all.take(r as int),
                forall|k: u64| #[trigger]
                    buckets@.contains_key(k) ==> bucket_ok(buckets@[k]@, all, k, r as int),
                forall|q: int| 0 <= q < r ==> buckets@.contains_key(#[trigger] hash_key(all[q])),
            decreases n - r,
        {
            let h = hashes[r].clone();
            let key = compute_key(&h);
            let ghost old_buckets = buckets@;
            let bucket: Vec<usize> = match buckets.remove(&key) {
                Some(b) => {
                    let mut b = b;
                    b.push(r);
                    b
                },
                None => vec![r],
            };
            buckets.insert(key, bucket);
            proof {
                assert(all[r as int] == h@);
                let nb = buckets@[key]@;
                if old_buckets.contains_key(key) {
                    let ob = old_buckets[key]@;
                    assert(nb == ob.push(r));
                    assert(bucket_ok(ob, all, key, r as int));
                } else {
                    assert(nb == seq![r]);
                }
                assert(bucket_ok(nb, all, key, r + 1)) by {
                    assert forall|q: int| 0 <= q < r + 1 && #[trigger] hash_key(all[q]) == key implies exists|i: int|
                        0 <= i < nb.len() && nb[i] == q by {
                        if q == r {
                            assert(nb[nb.len() - 1] == q);
                        } else {
                            let ob = old_buckets[key]@;
                            let i = choose|i: int| 0 <= i < ob.len() && ob[i] == q;
                            assert(nb[i] == q);
                        }
                    }
                }
                assert forall|k: u64| #[trigger] buckets@.contains_key(k) implies bucket_ok(
                    buckets@[k]@,
                    all,
                    k,
                    r + 1,
                ) by {
                    if k != key {
                        assert(old_buckets.contains_key(k));
                        assert(buckets@[k] == old_buckets[k]);
                        let b = buckets@[k]@;
                        assert(bucket_ok(b, all, k, r as int));
                        assert forall|q: int| 0 <= q < r + 1 && #[trigger] hash_key(all[q]) == k implies exists|i: int|
                            0 <= i < b.len() && b[i] == q by {
                        }
                    }
                }
                assert forall|q: int| 0 <= q < r + 1 implies buckets@.contains_key(#[trigger] hash_key(all[q])) by {
                    if hash_key(all[q]) != key {
                        assert(old_buckets.contains_key(hash_key(all[q])));
                    }
                }
                assert(all.take(r + 1) == all.take(r as int).push(h@));
            }
            own.push(h);
            r += 1;
        }
        proof {
            assert(all.take(n as int) == all);
        }
        CommitIndex { hashes: own, buckets }
    }

    /// The first row whose hash is `h`.
    pub fn find(&self, h: &CommitHash) -> (r: Option<usize>)
        requires
            self.wf(),
        ensures
            is_first_row(self.rows(), h@, r),
    {
        broadcast use vstd::std_specs::hash::group_hash_axioms;

        let ghost hs = hash_views(self.hashes@);
        let key = compute_key(h);
        match self.buckets.get(&key) {
            None => {
                proof {
                    assert forall|k: int| 0 <= k < hs.len() implies #[trigger] hs[k] != h@ by {
                        if hs[k] == h@ {
                            assert(self.buckets@.contains_key(hash_key(hs[k])));
                        }
                    }
                }
                None
            },
            Some(b) => {
                let m = b.len();
                let mut j: usize = 0;
                while j < m
                    invariant
                        j <= m,
                        m == b@.len(),
                        hs == hash_views(self.hashes@),
                        hs.len() == self.hashes@.len(),
                        bucket_ok(b@, hs, key, hs.len() as int),
                        key == hash_key(h@),
                        forall|i: int| 0 <= i < j ==> hs[#[trigger] b@[i] as int] != h@,
                    decreases m - j,
                {
                    let row = b[j];
                    if self.hashes[row].same_as(h) {
                        proof {
                            assert(hs[row as int] == h@);
                            assert forall|k: int| 0 <= k < row implies #[trigger] hs[k] != h@ by {
                                if hs[k] == h@ {
                                    let i = choose|i: int| 0 <= i < b@.len() && b@[i] == k;
                                    assert(b@[i] < b@[j as int]);
                                    if i >= j {
                                        if i > j {
                                            assert(b@[j as int] < b@[i]);
                                        }
                                    }
                                    assert(hs[b@[i] as int] != h@);
                                }
                            }
                        }
                        return Some(row);
                    }
                    j += 1;
                }
                proof {
                    assert forall|k: int| 0 <= k < hs.len() implies #[trigger] hs[k] != h@ by {
                        if hs[k] == h@ {
                            let i = choose|i: int| 0 <= i < b@.len() && b@[i] == k;
                            assert(hs[b@[i] as int] != h@);
                        }
                    }
                }
                None
            },
        }
    }
}

// ---------------------------------------------------------------------------
// Reading `git show-ref` and `git stash list`
// ---------------------------------------------------------------------------

/// `r` is the branch that the ref path `refs` names at `hash`: a local
/// branch under `refs/heads/`, a remote one under `refs/remotes/`, and
/// nothing for any other path. The prefix is removed as many times as it
/// repeats.
pub open spec fn is_branch_ref_of(r: Option<Ref>, hash: Seq<char>, refs: Seq<char>) -> bool {
    if starts_with(refs, "refs/heads/"@) {
        r matches Some(Ref::Branch { name, target }) && name@ == trim_prefix_all(refs, "refs/heads/"@)
            && target@ == hash
    } else if starts_with(refs, "refs/remotes/"@) {
        r matches Some(Ref::RemoteBranch { name, target }) && name@ == trim_prefix_all(
            refs,
            "refs/remotes/"@,
        ) && target@ == hash
    } else {
        r is None
    }
}

/// `r` is the tag that the ref path `refs` names at `hash`: its name is the
/// path without `refs/tags/` in front and without the `^{}` that marks the
/// commit an annotated tag points at; nothing for other paths.
pub open spec fn is_tag_ref_of(r: Option<Ref>, hash: Seq<char>, refs: Seq<char>) -> bool {
    if starts_with(refs, "refs/tags/"@) {
        r matches Some(Ref::Tag { name, target }) && name@ == trim_suffix_all(
            trim_prefix_all(refs, "refs/tags/"@),
            "^{}"@,
        ) && target@ == hash
    } else {
        r is None
    }
}

fn begins_with(cs: &Vec<char>, p: &Vec<char>) -> (r: bool)
    ensures
        r == starts_with(cs@, p@),
{
    let r = matches_at(cs, 0, p);
    proof {
        assert(cs@.skip(0) == cs@);
    }
    r
}

/// Reads a branch ref path.
pub fn parse_branch_refs(hash: &str, refs: &str) -> (r: Option<Ref>)
    ensures
        is_branch_ref_of(r, hash@, refs@),
{
    let cs = chars_of(refs);
    let heads = chars_of("refs/heads/");
    let remotes = chars_of("refs/remotes/");
    if begins_with(&cs, &heads) {
        let name = string_from_chars(&trim_start_all(&cs, &heads));
        Some(Ref::Branch { name, target: CommitHash::new(hash) })
    } else if begins_with(&cs, &remotes) {
        let name = string_from_chars(&trim_start_all(&cs, &remotes));
        Some(Ref::RemoteBranch { name, target: CommitHash::new(hash) })
    } else {
        None
    }
}

/// Reads a tag ref path.
pub fn parse_tag_refs(hash: &str, refs: &str) -> (r: Option<Ref>)
    ensures
        is_tag_ref_of(r, hash@, refs@),
{
    let cs = chars_of(refs);
    let tags = chars_of("refs/tags/");
    if begins_with(&cs, &tags) {
        let peeled = chars_of("^{}");
        let name = string_from_chars(&trim_end_all(&trim_start_all(&cs, &tags), &peeled));
        Some(Ref::Tag { name, target: CommitHash::new(hash) })
    } else {
        None
    }
}

/// What one line of `git show-ref --head --dereference` says.
#[derive(Debug)]
pub enum ShowRefEntry {
    /// The line for HEAD, with the commit it resolves to.
    Head { hash: String },
    Branch(Ref),
    Tag(Ref),
    /// Any other ref (notes, the stash, ...).
    Other,
}

impl ShowRefEntry {
    /// The name of the tag this entry defines, if it is a tag.
    pub fn tag_name(&self) -> (r: Option<&str>)
        ensures
            r is Some <==> self is Tag,
            r is Some ==> r->0@ == ref_name(self->Tag_0),
    {
        match self {
            ShowRefEntry::Tag(t) => Some(t.name()),
            _ => None,
        }
    }

    /// The commit named by a HEAD entry.
    pub fn head_hash(&self) -> (r: Option<&str>)
        ensures
            r is Some <==> self is Head,
            r is Some ==> r->0@ == self->hash@,
    {
        match self {
            ShowRefEntry::Head { hash } => Some(hash.as_str()),
            _ => None,
        }
    }
}

/// `e` is what the line `hash refs` says.
pub open spec fn is_show_ref_entry(e: ShowRefEntry, hash: Seq<char>, refs: Seq<char>) -> bool {
    if refs == "HEAD"@ {
        e matches ShowRefEntry::Head { hash: h } && h@ == hash
    } else if starts_with(refs, "refs/heads/"@) || starts_with(refs, "refs/remotes/"@) {
        e matches ShowRefEntry::Branch(b) && is_branch_ref_of(Some(b), hash, refs)
    } else if starts_with(refs, "refs/tags/"@) {
        e matches ShowRefEntry::Tag(t) && is_tag_ref_of(Some(t), hash, refs)
    } else {
        e is Other
    }
}

/// Reads one line of `git show-ref`: a hash and a ref path separated by a
/// space. Nothing when the line does not have exactly these two parts.
pub fn parse_show_ref_line(line: &str) -> (r: Option<ShowRefEntry>)
    ensures
        ({
            let parts = split_chars(line@, ' ');
            &&& r is Some <==> parts.len() == 2
            &&& r is Some ==> is_show_ref_entry(r->0, parts[0], parts[1])
        }),
{
    let cs = chars_of(line);
    let parts = split_at_char(&cs, ' ');
    if parts.len() != 2 {
        return None;
    }
    let hash = string_from_chars(&parts[0]);
    let refs = string_from_chars(&parts[1]);
    if str_eq(refs.as_str(), "HEAD") {
        return Some(ShowRefEntry::Head { hash });
    }
    match parse_branch_refs(hash.as_str(), refs.as_str()) {
        Some(b) => Some(ShowRefEntry::Branch(b)),
        None => match parse_tag_refs(hash.as_str(), refs.as_str()) {
            Some(t) => Some(ShowRefEntry::Tag(t)),
            None => Some(ShowRefEntry::Other),
        },
    }
}

/// The branches among the first `n` entries, in order.
pub open spec fn branch_entries(es: Seq<ShowRefEntry>, n: int) -> Seq<Ref>
    decreases n,
{
    if n <= 0 {
        Seq::empty()
    } else {
        let prev = branch_entries(es, n - 1);
        match es[n - 1] {
            ShowRefEntry::Branch(b) => prev.push(b),
            _ => prev,
        }
    }
}

/// Entry `e` is a tag called `name`.
pub open spec fn is_tag_named(e: ShowRefEntry, name: Seq<char>) -> bool {
    e matches ShowRefEntry::Tag(t) && ref_name(t) == name
}

/// Entry `i` is a tag that no later entry names again.
pub open spec fn is_last_tag(es: Seq<ShowRefEntry>, i: int) -> bool {
    &&& es[i] is Tag
    &&& forall|j: int| i < j < es.len() ==> !is_tag_named(#[trigger] es[j], ref_name(es[i]->Tag_0))
}

/// The tags among the first `n` entries that no later entry redefines, in
/// order: a later line for the same tag (the dereferenced `^{}` line of an
/// annotated tag) replaces the earlier one.
pub open spec fn surviving_tags(es: Seq<ShowRefEntry>, n: int) -> Seq<Ref>
    decreases n,
{
    if n <= 0 {
        Seq::empty()
    } else {
        let prev = surviving_tags(es, n - 1);
        if is_last_tag(es, n - 1) {
            prev.push(es[n - 1]->Tag_0)
        } else {
            prev
        }
    }
}

/// The index of the last HEAD entry among the first `n`, or -1.
pub open spec fn last_head(es: Seq<ShowRefEntry>, n: int) -> int
    decreases n,
{
    if n <= 0 {
        -1
    } else if es[n - 1] is Head {
        n - 1
    } else {
        last_head(es, n - 1)
    }
}

/// Gathers the refs and HEAD from the lines of `git show-ref`: the branches
/// in order, then the tags that survive; HEAD is the current branch when
/// there is one, else the commit of the (last) HEAD line. Nothing when no
/// line names HEAD.
pub fn collect_show_refs(entries: &Vec<ShowRefEntry>, current_branch: Option<String>) -> (r: Option<(Vec<Ref>, Head)>)
    ensures
        r is Some <==> last_head(entries@, entries@.len() as int) >= 0,
        r is Some ==> ({
            let refs = (r->0).0;
            let head = (r->0).1;
            let h = entries@[last_head(entries@, entries@.len() as int)];
            &&& refs@ == branch_entries(entries@, entries@.len() as int) + surviving_tags(
                entries@,
                entries@.len() as int,
            )
            &&& match current_branch {
                Some(b) => head matches Head::Branch { name } && name == b,
                None => head matches Head::Detached { target } && h matches ShowRefEntry::Head { hash } && target@ == hash@,
            }
        }),
{
    let n = entries.len();
    let mut branches: Vec<Ref> = Vec::new();
    let mut tags: Vec<Ref> = Vec::new();
    let mut head_at: Option<usize> = None;
    let mut i: usize = 0;
    while i < n
        invariant
            i <= n,
            n == entries@.len(),
            branches@ == branch_entries(entries@, i as int),
            tags@ == surviving_tags(entries@, i as int),
            match head_at {
                Some(k) => k < i && k == last_head(entries@, i as int) && entries@[k as int] is Head,
                None => last_head(entries@, i as int) == -1,
            },
        decreases n - i,
    {
        match &entries[i] {
            ShowRefEntry::Head { .. } => {
                head_at = Some(i);
            },
            ShowRefEntry::Branch(b) => {
                branches.push(b.clone());
            },
            ShowRefEntry::Tag(t) => {
                let ghost nm = ref_name(*t);
                let mut later = false;
                let mut j: usize = i + 1;
                while j < n
                    invariant
                        i < j <= n,
                        n == entries@.len(),
                        entries@[i as int] is Tag,
                        nm == ref_name(entries@[i as int]->Tag_0),
                        nm == ref_name(*t),
                        later == exists|k: int| i < k < j && is_tag_named(#[trigger] entries@[k], nm),
                    decreases n - j,
                {
                    let hit = match entries[j].tag_name() {
                        Some(u) => str_eq(u, t.name()),
                        None => false,
                    };
                    assert(hit == is_tag_named(entries@[j as int], nm));
                    proof {
                        if hit {
                            assert(is_tag_named(entries@[j as int], nm));
                        }
                        if !later && !hit {
                            assert forall|k: int| i < k < j + 1 implies !is_tag_named(#[trigger] entries@[k], nm) by {}
                        }
                    }
                    later = later || hit;
                    j += 1;
                }
                if !later {
                    tags.push(t.clone());
                }
            },
            ShowRefEntry::Other => {},
        }
        i += 1;
    }
    match head_at {
        None => None,
        Some(k) => {
            let head = match current_branch {
                Some(b) => Head::Branch { name: b },
                None => match entries[k].head_hash() {
                    Some(hash) => Head::Detached { target: CommitHash::new(hash) },
                    None => Head::Detached { target: CommitHash::default() },
                },
            };
            let mut refs = branches;
            refs.append(&mut tags);
            Some((refs, head))
        },
    }
}

/// Reads one line of `git stash list --format=%gd%x1f%H%x1f%s`: the stash
/// name, the commit and the message. Nothing when the line does not have
/// exactly three fields.
pub fn parse_stash_ref_line(line: &str) -> (r: Option<Ref>)
    ensures
        ({
            let parts = split_chars(line@, '\u{1f}');
            &&& r is Some <==> parts.len() == 3
            &&& r is Some ==> (r->0 matches Ref::Stash { name, message, target } && name@ == parts[0]
                && target@ == parts[1] && message@ == parts[2])
        }),
{
    let cs = chars_of(line);
    let parts = split_at_char(&cs, '\u{1f}');
    if parts.len() != 3 {
        return None;
    }
    let hash = string_from_chars(&parts[1]);
    Some(Ref::Stash {
        name: string_from_chars(&parts[0]),
        message: string_from_chars(&parts[2]),
        target: CommitHash::new(hash.as_str()),
    })
}

/// Adds the refs of `m2` to those of `m1`.
pub fn merge_ref_maps(m1: &mut Vec<Ref>, m2: Vec<Ref>)
    ensures
        final(m1)@ == old(m1)@ + m2@,
{
    let mut m2 = m2;
    m1.append(&mut m2);
}

// ---------------------------------------------------------------------------
// The refs of each commit, in order
// ---------------------------------------------------------------------------

/// Position of a ref's kind in the order tags, branches, remote branches,
/// stashes.
pub open spec fn ref_rank(r: Ref) -> int {
    match r {
        Ref::Tag { .. } => 0,
        Ref::Branch { .. } => 1,
        Ref::RemoteBranch { .. } => 2,
        Ref::Stash { .. } => 3,
    }
}

/// The message of a stash (empty for other refs).
pub open spec fn ref_message(r: Ref) -> Seq<char> {
    match r {
        Ref::Stash { message, .. } => message@,
        _ => Seq::empty(),
    }
}

/// The order refs are listed in: by kind, then name, then message, then
/// target.
pub open spec fn ref_lt(a: Ref, b: Ref) -> bool {
    ref_rank(a) < ref_rank(b) || (ref_rank(a) == ref_rank(b) && (seq_lt(ref_name(a), ref_name(b)) || (
    ref_name(a) == ref_name(b) && (seq_lt(ref_message(a), ref_message(b)) || (ref_message(a)
        == ref_message(b) && seq_lt(ref_target(a), ref_target(b)))))))
}

/// The order of refs is transitive.
pub proof fn lemma_ref_lt_transitive(a: Ref, b: Ref, c: Ref)
    requires
        ref_lt(a, b),
        ref_lt(b, c),
    ensures
        ref_lt(a, c),
{
    lemma_seq_lt_irreflexive(ref_name(b));
    lemma_seq_lt_irreflexive(ref_message(b));
    if ref_rank(a) == ref_rank(b) && ref_rank(b) == ref_rank(c) {
        if seq_lt(ref_name(a), ref_name(b)) && seq_lt(ref_name(b), ref_name(c)) {
            lemma_seq_lt_transitive(ref_name(a), ref_name(b), ref_name(c));
        }
        if ref_name(a) == ref_name(b) && ref_name(b) == ref_name(c) {
            if seq_lt(ref_message(a), ref_message(b)) && seq_lt(ref_message(b), ref_message(c)) {
                lemma_seq_lt_transitive(ref_message(a), ref_message(b), ref_message(c));
            }
            if ref_message(a) == ref_message(b) && ref_message(b) == ref_message(c) {
                lemma_seq_lt_transitive(ref_target(a), ref_target(b), ref_target(c));
            }
        }
    }
}

/// No ref comes before itself.
pub proof fn lemma_ref_lt_irreflexive(a: Ref)
    ensures
        !ref_lt(a, a),
{
    lemma_seq_lt_irreflexive(ref_name(a));
    lemma_seq_lt_irreflexive(ref_message(a));
    lemma_seq_lt_irreflexive(ref_target(a));
}

/// The refs are in order: no later one comes before an earlier one.
pub open spec fn refs_sorted(s: Seq<Ref>) -> bool {
    forall|i: int, j: int| 0 <= i < j < s.len() ==> !ref_lt(#[trigger] s[j], #[trigger] s[i])
}

impl Ref {
    fn rank(&self) -> (r: u8)
        ensures
            r == ref_rank(*self),
    {
        match self {
            Ref::Tag { .. } => 0,
            Ref::Branch { .. } => 1,
            Ref::RemoteBranch { .. } => 2,
            Ref::Stash { .. } => 3,
        }
    }

    fn message(&self) -> (r: &str)
        ensures
            r@ == ref_message(*self),
    {
        proof {
            reveal_strlit("");
        }
        match self {
            Ref::Stash { message, .. } => message.as_str(),
            _ => "",
        }
    }
}

/// Whether `a` is listed before `b`.
pub fn ref_less(a: &Ref, b: &Ref) -> (r: bool)
    ensures
        r == ref_lt(*a, *b),
{
    let ra = a.rank();
    let rb = b.rank();
    if ra != rb {
        return ra < rb;
    }
    if lex_lt(a.name(), b.name()) {
        return true;
    }
    if !str_eq(a.name(), b.name()) {
        return false;
    }
    let ma = a.message();
    let mb = b.message();
    proof {
        if !(a is Stash) {
            assert(ma@ == Seq::<char>::empty());
        }
        if !(b is Stash) {
            assert(mb@ == Seq::<char>::empty());
        }
    }
    if lex_lt(ma, mb) {
        return true;
    }
    if !str_eq(ma, mb) {
        return false;
    }
    lex_lt(a.target().as_str(), b.target().as_str())
}

/// The refs in the order they are listed in (a stable insertion sort).
pub fn sort_refs(refs: &Vec<Ref>) -> (r: Vec<Ref>)
    ensures
        refs_sorted(r@),
        r@.to_multiset() == refs@.to_multiset(),
{
    broadcast use vstd::seq_lib::group_to_multiset_ensures;

    let n = refs.len();
    let mut out: Vec<Ref> = Vec::new();
    let mut i: usize = 0;
    while i < n
        invariant
            i <= n,
            n == refs@.len(),
            refs_sorted(out@),
            out@.to_multiset() == refs@.take(i as int).to_multiset(),
        decreases n - i,
    {
        let x = refs[i].clone();
        let m = out.len();
        let mut pos: usize = 0;
        let mut found = false;
        while pos < m && !found
            invariant
                pos <= m,
                m == out@.len(),
                forall|k: int| 0 <= k < pos ==> !ref_lt(x, #[trigger] out@[k]),
                found ==> pos < m && ref_lt(x, out@[pos as int]),
            decreases (m - pos) * 2 + (if found { 0int } else { 1int }),
        {
            if ref_less(&x, &out[pos]) {
                found = true;
            } else {
                pos += 1;
            }
        }
        let ghost before = out@;
        out.insert(pos, x);
        proof {
            assert(out@ == before.insert(pos as int, x));
            vstd::seq_lib::to_multiset_insert(before, pos as int, x);
            vstd::seq_lib::to_multiset_build(refs@.take(i as int), refs@[i as int]);
            assert forall|a: int, b: int| 0 <= a < b < out@.len() implies !ref_lt(#[trigger] out@[b], #[trigger] out@[a]) by {
                if a < pos && b < pos {
                    assert(out@[a] == before[a] && out@[b] == before[b]);
                } else if a < pos && b == pos {
                    assert(out@[a] == before[a]);
                } else if a < pos {
                    assert(out@[a] == before[a] && out@[b] == before[b - 1]);
                } else if a == pos {
                    assert(out@[b] == before[b - 1]);
                    if ref_lt(out@[b], x) {
                        lemma_ref_lt_transitive(out@[b], x, before[pos as int]);
                        lemma_ref_lt_irreflexive(before[pos as int]);
                    }
                } else {
                    assert(out@[a] == before[a - 1] && out@[b] == before[b - 1]);
                }
            }
            assert(refs@.take(i + 1) == refs@.take(i as int).push(refs@[i as int]));
        }
        i += 1;
    }
    proof {
        assert(refs@.take(n as int) == refs@);
    }
    out
}

/// The refs, in their order, whose target is first listed at `row`.
pub open spec fn refs_at_row(rows: Seq<Seq<char>>, refs: Seq<Ref>, row: usize) -> Seq<Ref>
    decreases refs.len(),
{
    if refs.len() == 0 {
        Seq::empty()
    } else {
        let prev = refs_at_row(rows, refs.drop_last(), row);
        if is_first_row(rows, ref_target(refs.last()), Some(row)) {
            prev.push(refs.last())
        } else {
            prev
        }
    }
}

/// The refs of each listed commit, in listing order; refs pointing at
/// commits that are not listed are left out.
pub fn refs_by_row(ix: &CommitIndex, refs: &Vec<Ref>) -> (t: Vec<Vec<Ref>>)
    requires
        ix.wf(),
    ensures
        t@.len() == ix.rows().len(),
        forall|row: int|
            0 <= row < t@.len() ==> refs_sorted(#[trigger] t@[row]@) && t@[row]@.to_multiset()
                == refs_at_row(ix.rows(), refs@, row as usize).to_multiset(),
{
    let ghost rows = ix.rows();
    let n = ix.len();
    let mut table: Vec<Vec<Ref>> = Vec::new();
    while table.len() < n
        invariant
            table@.len() <= n,
            n == rows.len(),
            forall|row: int| 0 <= row < table@.len() ==> (#[trigger] table@[row])@ == Seq::<Ref>::empty(),
        decreases n - table@.len(),
    {
        table.push(Vec::new());
    }
    let mut i: usize = 0;
    while i < refs.len()
        invariant
            i <= refs@.len(),
            ix.wf(),
            rows == ix.rows(),
            table@.len() == n,
            n == rows.len(),
            forall|row: int|
                0 <= row < n ==> (#[trigger] table@[row])@ == refs_at_row(rows, refs@.take(i as int), row as usize),
        decreases refs@.len() - i,
    {
        let r = refs[i].clone();
        let found = ix.find(r.target());
        proof {
            assert(refs@.take(i + 1).drop_last() == refs@.take(i as int));
            assert(refs@.take(i + 1).last() == refs@[i as int]);
        }
        match found {
            Some(row) => {
                let ghost before = table@;
                let mut bucket = table[row].clone();
                proof {
                    assert(bucket@ =~= before[row as int]@);
                }
                bucket.push(r);
                table.set(row, bucket);
                proof {
                    assert forall|q: int| 0 <= q < n implies (#[trigger] table@[q])@ == refs_at_row(rows, refs@.take(i + 1), q as usize) by {
                        if q != row {
                            assert(table@[q] == before[q]);
                            if is_first_row(rows, ref_target(refs@[i as int]), Some(q as usize)) {
                                assert(q == row);
                            }
                        }
                    }
                }
            },
            None => {
                proof {
                    assert forall|q: int| 0 <= q < n implies (#[trigger] table@[q])@ == refs_at_row(rows, refs@.take(i + 1), q as usize) by {
                        assert(!is_first_row(rows, ref_target(refs@[i as int]), Some(q as usize)));
                    }
                }
            },
        }
        i += 1;
    }
    proof {
        assert(refs@.take(refs@.len() as int) == refs@);
    }
    let mut out: Vec<Vec<Ref>> = Vec::new();
    let mut row: usize = 0;
    while row < n
        invariant
            row <= n,
            table@.len() == n,
            out@.len() == row,
            forall|q: int| 0 <= q < n ==> (#[trigger] table@[q])@ == refs_at_row(rows, refs@, q as usize),
            forall|q: int|
                0 <= q < row ==> refs_sorted(#[trigger] out@[q]@) && out@[q]@.to_multiset() == refs_at_row(
                    rows,
                    refs@,
                    q as usize,
                ).to_multiset(),
        decreases n - row,
    {
        out.push(sort_refs(&table[row]));
        row += 1;
    }
    out
}

/// The hash of each commit, by row.
pub open spec fn commit_rows(commits: Seq<Commit>) -> Seq<Seq<char>> {
    commits.map_values(|c: Commit| c.commit_hash@)
}

/// Finds, for every parent of every commit, the row where that parent is
/// listed (nothing for a parent that is not listed). This is the table the
/// graph layout works on.
pub fn commit_parent_rows(commits: &Vec<Commit>) -> (parents: Vec<Vec<Option<usize>>>)
    ensures
        parents@.len() == commits@.len(),
        forall|c: int|
            0 <= c < commits@.len() ==> (#[trigger] parents@[c])@.len()
                == commits@[c].parent_commit_hashes@.len(),
        forall|c: int, k: int|
            0 <= c < commits@.len() && 0 <= k < commits@[c].parent_commit_hashes@.len() ==> is_first_row(
                commit_rows(commits@),
                commits@[c].parent_commit_hashes@[k]@,
                #[trigger] parents@[c]@[k],
            ),
        crate::graph::calc::parents_well_formed(parents@),
{
    let n = commits.len();
    let mut hashes: Vec<CommitHash> = Vec::new();
    let mut i: usize = 0;
    while i < n
        invariant
            i <= n,
            n == commits@.len(),
            hash_views(hashes@) == commit_rows(commits@).take(i as int),
        decreases n - i,
    {
        hashes.push(commits[i].commit_hash.clone());
        proof {
            assert(commit_rows(commits@).take(i + 1) == commit_rows(commits@).take(i as int).push(commits@[i as int].commit_hash@));
            assert(hash_views(hashes@) =~= commit_rows(commits@).take(i + 1));
        }
        i += 1;
    }
    proof {
        assert(commit_rows(commits@).take(n as int) == commit_rows(commits@));
    }
    let ix = CommitIndex::new(&hashes);
    let ghost rows = commit_rows(commits@);
    let mut parents: Vec<Vec<Option<usize>>> = Vec::new();
    let mut c: usize = 0;
    while c < n
        invariant
            c <= n,
            n == commits@.len(),
            ix.wf(),
            ix.rows() == rows,
            rows == commit_rows(commits@),
            rows.len() == n,
            parents@.len() == c,
            forall|d: int| 0 <= d < c ==> (#[trigger] parents@[d])@.len() == commits@[d].parent_commit_hashes@.len(),
            forall|d: int, k: int|
                0 <= d < c && 0 <= k < commits@[d].parent_commit_hashes@.len() ==> is_first_row(
                    rows,
                    commits@[d].parent_commit_hashes@[k]@,
                    #[trigger] parents@[d]@[k],
                ),
        decreases n - c,
    {
        let ps = &commits[c].parent_commit_hashes;
        let mut row: Vec<Option<usize>> = Vec::new();
        let mut k: usize = 0;
        while k < ps.len()
            invariant
                k <= ps@.len(),
                ix.wf(),
                ix.rows() == rows,
                row@.len() == k,
                forall|j: int| 0 <= j < k ==> is_first_row(rows, ps@[j]@, #[trigger] row@[j]),
            decreases ps@.len() - k,
        {
            row.push(ix.find(&ps[k]));
            k += 1;
        }
        parents.push(row);
        c += 1;
    }
    parents
}

// ---------------------------------------------------------------------------
// Placing stashes
// ---------------------------------------------------------------------------

/// Where an entry of the merged list comes from: a stash (`true`) or a
/// commit, and its index there.
pub type MergeSource = (bool, int);

/// The stashes among the first `m` whose first parent is `h`, in order.
pub open spec fn stashes_for(stashes: Seq<Commit>, h: Seq<char>, m: int) -> Seq<MergeSource>
    decreases m,
{
    if m <= 0 {
        Seq::empty()
    } else {
        let prev = stashes_for(stashes, h, m - 1);
        if stashes[m - 1].parent_commit_hashes@[0]@ == h {
            prev.push((true, m - 1))
        } else {
            prev
        }
    }
}

/// The merged list for the first `n` commits: each commit is preceded by the
/// stashes made on it, given to the first commit with that hash only.
pub open spec fn merge_plan(commits: Seq<Commit>, stashes: Seq<Commit>, n: int) -> Seq<MergeSource>
    decreases n,
{
    if n <= 0 {
        Seq::empty()
    } else {
        let h = commits[n - 1].commit_hash@;
        let own = if is_first_row(commit_rows(commits), h, Some((n - 1) as usize)) {
            stashes_for(stashes, h, stashes.len() as int)
        } else {
            Seq::empty()
        };
        merge_plan(commits, stashes, n - 1) + own + seq![(false, n - 1)]
    }
}

/// The entry a merge source names.
pub open spec fn merge_source(commits: Seq<Commit>, stashes: Seq<Commit>, src: MergeSource) -> Commit {
    if src.0 {
        stashes[src.1]
    } else {
        commits[src.1]
    }
}

/// Puts each stash right before the commit it was made on; a stash whose
/// commit is not listed is dropped.
pub fn merge_stashes_to_commits(commits: &Vec<Commit>, stashes: &Vec<Commit>) -> (r: Vec<Commit>)
    requires
        forall|j: int| 0 <= j < stashes@.len() ==> (#[trigger] stashes@[j]).parent_commit_hashes@.len() >= 1,
    ensures
        r@.len() == merge_plan(commits@, stashes@, commits@.len() as int).len(),
        forall|k: int|
            0 <= k < r@.len() ==> same_commit(
                #[trigger] r@[k],
                merge_source(commits@, stashes@, merge_plan(commits@, stashes@, commits@.len() as int)[k]),
            ),
{
    let n = commits.len();
    let m = stashes.len();
    let mut hashes: Vec<CommitHash> = Vec::new();
    let mut i: usize = 0;
    while i < n
        invariant
            i <= n,
            n == commits@.len(),
            hash_views(hashes@) == commit_rows(commits@).take(i as int),
        decreases n - i,
    {
        hashes.push(commits[i].commit_hash.clone());
        proof {
            assert(commit_rows(commits@).take(i + 1) == commit_rows(commits@).take(i as int).push(commits@[i as int].commit_hash@));
            assert(hash_views(hashes@) =~= commit_rows(commits@).take(i + 1));
        }
        i += 1;
    }
    proof {
        assert(commit_rows(commits@).take(n as int) == commit_rows(commits@));
    }
    let ix = CommitIndex::new(&hashes);
    let ghost rows = commit_rows(commits@);
    let mut out: Vec<Commit> = Vec::new();
    let mut c: usize = 0;
    while c < n
        invariant
            c <= n,
            n == commits@.len(),
            m == stashes@.len(),
            ix.wf(),
            ix.rows() == rows,
            rows == commit_rows(commits@),
            forall|j: int| 0 <= j < stashes@.len() ==> (#[trigger] stashes@[j]).parent_commit_hashes@.len() >= 1,
            out@.len() == merge_plan(commits@, stashes@, c as int).len(),
            forall|k: int|
                0 <= k < out@.len() ==> same_commit(
                    #[trigger] out@[k],
                    merge_source(commits@, stashes@, merge_plan(commits@, stashes@, c as int)[k]),
                ),
        decreases n - c,
    {
        let h = &commits[c].commit_hash;
        let ghost base = out@;
        let ghost plan0 = merge_plan(commits@, stashes@, c as int);
        let first = match ix.find(h) {
            Some(r) => r == c,
            None => false,
        };
        assert(first == is_first_row(rows, h@, Some(c)));
        let ghost own = if first { stashes_for(stashes@, h@, m as int) } else { Seq::<MergeSource>::empty() };
        if first {
            let mut j: usize = 0;
            while j < m
                invariant
                    j <= m,
                    m == stashes@.len(),
                    forall|q: int| 0 <= q < stashes@.len() ==> (#[trigger] stashes@[q]).parent_commit_hashes@.len() >= 1,
                    out@.len() == base.len() + stashes_for(stashes@, h@, j as int).len(),
                    out@.take(base.len() as int) == base,
                    forall|k: int|
                        0 <= k < stashes_for(stashes@, h@, j as int).len() ==> same_commit(
                            #[trigger] out@[base.len() + k],
                            merge_source(commits@, stashes@, stashes_for(stashes@, h@, j as int)[k]),
                        ),
                decreases m - j,
            {
                assert(stashes@[j as int].parent_commit_hashes@.len() >= 1);
                if stashes[j].parent_commit_hashes[0].same_as(h) {
                    let ghost prev = out@;
                    out.push(stashes[j].clone());
                    proof {
                        assert(out@.take(base.len() as int) == prev.take(base.len() as int));
                    }
                }
                j += 1;
            }
        }
        assert(out@.len() == base.len() + own.len());
        assert(out@.take(base.len() as int) == base);
        assert(forall|kk: int|
            0 <= kk < own.len() ==> same_commit(
                #[trigger] out@[base.len() + kk],
                merge_source(commits@, stashes@, own[kk]),
            ));
        let ghost mid = out@;
        out.push(commits[c].clone());
        proof {
            let plan1 = merge_plan(commits@, stashes@, c + 1);
            assert(plan1 == plan0 + own + seq![(false, c as int)]);
            assert forall|k: int| 0 <= k < out@.len() implies same_commit(
                #[trigger] out@[k],
                merge_source(commits@, stashes@, plan1[k]),
            ) by {
                if k < base.len() {
                    assert(out@[k] == mid[k]);
                    if first {
                        assert(mid.take(base.len() as int)[k] == base[k]);
                    }
                    assert(plan1[k] == plan0[k]);
                } else if k < base.len() + own.len() {
                    let kk = k - base.len();
                    assert(out@[k] == mid[base.len() + kk]);
                    assert(plan1[k] == own[kk]);
                } else {
                    assert(plan1[k] == (false, c as int));
                }
            }
        }
        c += 1;
    }
    out
}

// ---------------------------------------------------------------------------
// Changes of a commit, and commands that change the repository
// ---------------------------------------------------------------------------

/// The status letter of a `--name-status` line is readable: the first field
/// starts with a one-byte character.
pub open spec fn status_readable(p0: Seq<char>) -> bool {
    p0.len() > 0 && (p0[0] as u32) < 128
}

/// Reads one line of `git diff --name-status`: a status letter, a tab and the
/// path (two paths for a rename). A line with another status is skipped
/// (`Ok(None)`); `Err` for a line whose status cannot be read or that lacks
/// the paths its status needs.
pub fn parse_diff_summary_line(line: &str) -> (r: Result<Option<FileChange>, ()>)
    ensures
        ({
            let parts = split_chars(line@, '\t');
            let p0 = parts[0];
            &&& r is Err <==> (!status_readable(p0) || ((p0[0] == 'A' || p0[0] == 'M' || p0[0] == 'D')
                && parts.len() < 2) || (p0[0] == 'R' && parts.len() < 3))
            &&& r is Ok ==> match r->Ok_0 {
                Some(FileChange::Add { path }) => p0[0] == 'A' && path@ == parts[1],
                Some(FileChange::Modify { path }) => p0[0] == 'M' && path@ == parts[1],
                Some(FileChange::Delete { path }) => p0[0] == 'D' && path@ == parts[1],
                Some(FileChange::Move { from, to }) => p0[0] == 'R' && from@ == parts[1] && to@ == parts[2],
                None => p0[0] != 'A' && p0[0] != 'M' && p0[0] != 'D' && p0[0] != 'R',
            }
        }),
{
    let cs = chars_of(line);
    let parts = split_at_char(&cs, '\t');
    proof {
        crate::text::lemma_split_nonempty(line@, '\t');
    }
    if parts[0].len() == 0 || (parts[0][0] as u32) >= 128 {
        return Err(());
    }
    let status = parts[0][0];
    let n = parts.len();
    if status == 'A' || status == 'M' || status == 'D' {
        if n < 2 {
            return Err(());
        }
        let path = string_from_chars(&parts[1]);
        if status == 'A' {
            Ok(Some(FileChange::Add { path }))
        } else if status == 'M' {
            Ok(Some(FileChange::Modify { path }))
        } else {
            Ok(Some(FileChange::Delete { path }))
        }
    } else if status == 'R' {
        if n < 3 {
            return Err(());
        }
        Ok(Some(FileChange::Move { from: string_from_chars(&parts[1]), to: string_from_chars(&parts[2]) }))
    } else {
        Ok(None)
    }
}

/// The message given when the path is not inside a git repository.
pub open spec fn not_a_repository_message() -> Seq<char> {
    "not a git repository (or any of the parent directories)"@
}

/// Accepts a path that is inside a work tree or is a bare repository.
pub fn check_git_repository(inside_work_tree: bool, bare_repository: bool) -> (r: Result<(), String>)
    ensures
        r is Ok <==> (inside_work_tree || bare_repository),
        r is Err ==> r->Err_0@ == not_a_repository_message(),
{
    if !inside_work_tree && !bare_repository {
        return Err("not a git repository (or any of the parent directories)".to_owned());
    }
    Ok(())
}

/// Splits a remote branch name such as `origin/feature` at its first `/`
/// into the remote and the branch; nothing when it has no `/`.
pub fn split_remote_branch_name(name: &str) -> (r: Option<(String, String)>)
    ensures
        r is Some <==> exists|i: int| 0 <= i < name@.len() && name@[i] == '/',
        r is Some ==> exists|i: int|
            0 <= i < name@.len() && name@[i] == '/' && (forall|j: int| 0 <= j < i ==> name@[j] != '/')
                && (r->0).0@ == name@.take(i) && (r->0).1@ == name@.skip(i + 1),
{
    let cs = chars_of(name);
    let n = cs.len();
    let mut i: usize = 0;
    while i < n && cs[i] != '/'
        invariant
            i <= n,
            n == cs@.len(),
            cs@ == name@,
            forall|j: int| 0 <= j < i ==> cs@[j] != '/',
        decreases n - i,
    {
        i += 1;
    }
    if i == n {
        return None;
    }
    let remote = string_from_chars(&crate::text::slice_chars(&cs, 0, i));
    let branch = string_from_chars(&crate::text::slice_chars(&cs, i + 1, n));
    proof {
        assert(cs@.subrange(0, i as int) == name@.take(i as int));
        assert(cs@.subrange(i + 1, n as int) == name@.skip(i + 1));
    }
    Some((remote, branch))
}

/// The arguments of the `git` call that creates tag `name` on `hash`: an
/// annotated tag when a non-empty message is given, else a lightweight one.
pub fn create_tag_args(name: &str, hash: &CommitHash, message: Option<&str>) -> (args: Vec<String>)
    ensures
        match message {
            Some(m) if m@.len() > 0 => args@.len() == 6 && args@[0]@ == "tag"@ && args@[1]@ == "-a"@
                && args@[2]@ == "-m"@ && args@[3]@ == m@ && args@[4]@ == name@ && args@[5]@ == hash@,
            _ => args@.len() == 3 && args@[0]@ == "tag"@ && args@[1]@ == name@ && args@[2]@ == hash@,
        },
{
    let mut args: Vec<String> = Vec::new();
    args.push("tag".to_owned());
    match message {
        Some(m) => {
            if !m.is_empty() {
                args.push("-a".to_owned());
                args.push("-m".to_owned());
                args.push(m.to_owned());
            }
        },
        None => {},
    }
    args.push(name.to_owned());
    args.push(hash.as_str().to_owned());
    args
}

/// A git command that changes refs.
#[derive(Debug)]
pub enum RefOperation {
    CreateTag { name: String, hash: CommitHash, message: Option<String> },
    PushTag { name: String },
    DeleteTag { name: String },
    DeleteRemoteTag { name: String },
    DeleteBranch { name: String },
    DeleteBranchForce { name: String },
    DeleteRemoteBranch { name: String },
}

/// The views of a list of strings.
pub open spec fn string_views(v: Seq<String>) -> Seq<Seq<char>> {
    v.map_values(|s: String| s@)
}

/// The text before the first `/` of `s`, and the text after it.
pub open spec fn remote_split(s: Seq<char>) -> Option<(Seq<char>, Seq<char>)> {
    if exists|i: int| 0 <= i < s.len() && s[i] == '/' {
        let i = choose|i: int| 0 <= i < s.len() && s[i] == '/' && (forall|j: int| 0 <= j < i ==> s[j] != '/');
        Some((s.take(i), s.skip(i + 1)))
    } else {
        None
    }
}

/// The arguments of the `git` call that performs `op`, or why it cannot be
/// made (a remote branch name without a remote).
pub open spec fn operation_args(op: RefOperation) -> Result<Seq<Seq<char>>, Seq<char>> {
    match op {
        RefOperation::CreateTag { name, hash, message } => match message {
            Some(m) if m@.len() > 0 => Ok(seq!["tag"@, "-a"@, "-m"@, m@, name@, hash@]),
            _ => Ok(seq!["tag"@, name@, hash@]),
        },
        RefOperation::PushTag { name } => Ok(seq!["push"@, "origin"@, name@]),
        RefOperation::DeleteTag { name } => Ok(seq!["tag"@, "-d"@, name@]),
        RefOperation::DeleteRemoteTag { name } => Ok(seq!["push"@, "origin"@, "--delete"@, name@]),
        RefOperation::DeleteBranch { name } => Ok(seq!["branch"@, "-d"@, name@]),
        RefOperation::DeleteBranchForce { name } => Ok(seq!["branch"@, "-D"@, name@]),
        RefOperation::DeleteRemoteBranch { name } => match remote_split(name@) {
            Some((remote, branch)) => Ok(seq!["push"@, remote, "--delete"@, branch]),
            None => Err("Invalid remote branch name format: "@ + name@),
        },
    }
}

fn args3(a: &str, b: &str, c: &str) -> (v: Vec<String>)
    ensures
        string_views(v@) == seq![a@, b@, c@],
{
    let mut v: Vec<String> = Vec::new();
    v.push(a.to_owned());
    v.push(b.to_owned());
    v.push(c.to_owned());
    proof {
        assert(string_views(v@) =~= seq![a@, b@, c@]);
    }
    v
}

fn args4(a: &str, b: &str, c: &str, d: &str) -> (v: Vec<String>)
    ensures
        string_views(v@) == seq![a@, b@, c@, d@],
{
    let mut v: Vec<String> = Vec::new();
    v.push(a.to_owned());
    v.push(b.to_owned());
    v.push(c.to_owned());
    v.push(d.to_owned());
    proof {
        assert(string_views(v@) =~= seq![a@, b@, c@, d@]);
    }
    v
}

impl RefOperation {
    /// The arguments to call `git` with, or the error to report instead.
    pub fn args(&self) -> (r: Result<Vec<String>, String>)
        ensures
            match r {
                Ok(a) => operation_args(*self) == Ok::<Seq<Seq<char>>, Seq<char>>(string_views(a@)),
                Err(e) => operation_args(*self) == Err::<Seq<Seq<char>>, Seq<char>>(e@),
            },
    {
        let v = match self {
            RefOperation::CreateTag { name, hash, message } => {
                let m = match message {
                    Some(m) => Some(m.as_str()),
                    None => None,
                };
                let a = create_tag_args(name.as_str(), hash, m);
                proof {
                    assert(string_views(a@) =~= match message {
                        Some(m) if m@.len() > 0 => seq!["tag"@, "-a"@, "-m"@, m@, name@, hash@],
                        _ => seq!["tag"@, name@, hash@],
                    });
                }
                a
            },
            RefOperation::PushTag { name } => args3("push", "origin", name.as_str()),
            RefOperation::DeleteTag { name } => args3("tag", "-d", name.as_str()),
            RefOperation::DeleteRemoteTag { name } => args4("push", "origin", "--delete", name.as_str()),
            RefOperation::DeleteBranch { name } => args3("branch", "-d", name.as_str()),
            RefOperation::DeleteBranchForce { name } => args3("branch", "-D", name.as_str()),
            RefOperation::DeleteRemoteBranch { name } => {
                match split_remote_branch_name(name.as_str()) {
                    Some((remote, branch)) => {
                        proof {
                            let i = choose|i: int|
                                0 <= i < name@.len() && name@[i] == '/' && (forall|j: int| 0 <= j < i ==> name@[j] != '/');
                            let k = choose|i: int|
                                0 <= i < name@.len() && name@[i] == '/' && (forall|j: int| 0 <= j < i ==> name@[j] != '/')
                                    && remote@ == name@.take(i) && branch@ == name@.skip(i + 1);
                            assert(i == k) by {
                                if i < k {
                                    assert(name@[i] != '/');
                                } else if k < i {
                                    assert(name@[k] != '/');
                                }
                            }
                        }
                        args4("push", remote.as_str(), "--delete", branch.as_str())
                    },
                    None => {
                        let mut e = String::from_str("Invalid remote branch name format: ");
                        e.append(name.as_str());
                        return Err(e);
                    },
                }
            },
        };
        Ok(v)
    }

    /// The prefix of the error reported when `git` ran and failed.
    pub fn failure_prefix(&self) -> (r: &'static str)
        ensures
            r@ == failure_prefix(*self),
    {
        match self {
            RefOperation::CreateTag { .. } => "Failed to create tag: ",
            RefOperation::PushTag { .. } => "Failed to push tag: ",
            RefOperation::DeleteTag { .. } => "Failed to delete tag: ",
            RefOperation::DeleteRemoteTag { .. } => "Failed to delete remote tag: ",
            RefOperation::DeleteBranch { .. } => "Failed to delete branch: ",
            RefOperation::DeleteBranchForce { .. } => "Failed to force delete branch: ",
            RefOperation::DeleteRemoteBranch { .. } => "Failed to delete remote branch: ",
        }
    }

    /// The prefix of the error reported when `git` could not be run.
    pub fn spawn_failure_prefix(&self) -> (r: &'static str)
        ensures
            r@ == spawn_failure_prefix(*self),
    {
        match self {
            RefOperation::CreateTag { .. } => "Failed to execute git tag: ",
            RefOperation::PushTag { .. } => "Failed to execute git push: ",
            RefOperation::DeleteTag { .. } => "Failed to execute git tag -d: ",
            RefOperation::DeleteRemoteTag { .. } => "Failed to execute git push --delete: ",
            RefOperation::DeleteBranch { .. } => "Failed to execute git branch -d: ",
            RefOperation::DeleteBranchForce { .. } => "Failed to execute git branch -D: ",
            RefOperation::DeleteRemoteBranch { .. } => "Failed to execute git push --delete: ",
        }
    }

    /// The error reported when `git` ran and failed with `stderr`.
    pub fn failure_message(&self, stderr: &str) -> (r: String)
        ensures
            r@ == failure_prefix(*self) + stderr@,
    {
        let mut s = String::from_str(self.failure_prefix());
        s.append(stderr);
        s
    }

    /// The error reported when `git` could not be run, for the reason `err`.
    pub fn spawn_failure_message(&self, err: &str) -> (r: String)
        ensures
            r@ == spawn_failure_prefix(*self) + err@,
    {
        let mut s = String::from_str(self.spawn_failure_prefix());
        s.append(err);
        s
    }
}

pub open spec fn failure_prefix(op: RefOperation) -> Seq<char> {
    match op {
        RefOperation::CreateTag { .. } => "Failed to create tag: "@,
        RefOperation::PushTag { .. } => "Failed to push tag: "@,
        RefOperation::DeleteTag { .. } => "Failed to delete tag: "@,
        RefOperation::DeleteRemoteTag { .. } => "Failed to delete remote tag: "@,
        RefOperation::DeleteBranch { .. } => "Failed to delete branch: "@,
        RefOperation::DeleteBranchForce { .. } => "Failed to force delete branch: "@,
        RefOperation::DeleteRemoteBranch { .. } => "Failed to delete remote branch: "@,
    }
}

pub open spec fn spawn_failure_prefix(op: RefOperation) -> Seq<char> {
    match op {
        RefOperation::CreateTag { .. } => "Failed to execute git tag: "@,
        RefOperation::PushTag { .. } => "Failed to execute git push: "@,
        RefOperation::DeleteTag { .. } => "Failed to execute git tag -d: "@,
        RefOperation::DeleteRemoteTag { .. } => "Failed to execute git push --delete: "@,
        RefOperation::DeleteBranch { .. } => "Failed to execute git branch -d: "@,
        RefOperation::DeleteBranchForce { .. } => "Failed to execute git branch -D: "@,
        RefOperation::DeleteRemoteBranch { .. } => "Failed to execute git push --delete: "@,
    }
}

} // verus!
