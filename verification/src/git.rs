//! The history of a replica as the store reads it: commits with a logical
//! timestamp in their message, kept in the order of those timestamps.

use vstd::prelude::*;

use crate::error::{Error, GitError, GitErrorClass, GitErrorCode};
use crate::models::metadata::Metadata;
use crate::text::{
    chars_of, decimal, first_token, first_token_range, is_digit, is_whitespace,
    lemma_decimal_digits, lemma_parse_decimal, parse_decimal, parse_u64, push_decimal, push_hex,
    skip_token, skip_whitespace,
};

verus! {

/// The name that every commit of the store is signed with.
pub const AUTHOR_NAME: &'static str = "rdf-diff-store";

/// The address that every commit of the store is signed with.
pub const AUTHOR_EMAIL: &'static str = "fellesdatakatalog@digdir.no";

/// The remote that replicas fetch from and push to.
pub const REMOTE: &'static str = "origin";

/// The branch that holds the linear history.
pub const BRANCH: &'static str = "main";

/// The reference of that branch.
pub const MAIN_REF: &'static str = "refs/heads/main";

/// What is pushed upstream: the local branch onto the remote one.
pub const PUSH_REFSPEC: &'static str = "refs/heads/main:refs/heads/main";

/// The identifier of a commit: its 20 bytes.
#[derive(Clone, Copy, Debug, PartialEq, Eq, Hash)]
pub struct Oid {
    pub bytes: [u8; 20],
}

impl Oid {
    /// The identifier with these bytes.
    pub fn from_bytes(bytes: [u8; 20]) -> (oid: Oid)
        ensures
            oid.bytes == bytes,
    {
        Oid { bytes }
    }

    /// The identifier in lowercase hexadecimal, 40 characters.
    pub fn hex(&self) -> (text: String)
        ensures
            text@ == crate::text::hex(self.bytes@),
    {
        let mut text = String::new();
        push_hex(&mut text, self.bytes.as_slice());
        text
    }
}

/// A commit as the history walk yields it; the message is absent where it
/// is not valid text.
#[derive(Clone, Debug)]
pub struct Commit {
    pub oid: Oid,
    pub message: Option<String>,
}

/// The logical timestamp that a commit message carries: its first
/// whitespace-delimited token read as an unsigned 64-bit decimal, and 0 where
/// there is no such token or it is no such number.
pub open spec fn timestamp_of(message: Seq<char>) -> u64 {
    match parse_u64(first_token(message)) {
        Some(n) => n,
        None => 0,
    }
}

/// The logical timestamp of a commit message.
pub fn timestamp_from_message(msg: &str) -> (timestamp: u64)
    ensures
        timestamp == timestamp_of(msg@),
{
    let chars = chars_of(msg);
    let (start, end) = first_token_range(&chars);
    match parse_decimal(&chars, start, end) {
        Some(parsed) => parsed,
        None => 0,
    }
}

/// The message of a commit that stores the graph `id` at `timestamp`.
pub open spec fn update_message_text(timestamp: u64, id: Seq<char>) -> Seq<char> {
    decimal(timestamp as nat) + " - update: "@ + id
}

/// The message of a commit that deletes the graph `id` at `timestamp`.
pub open spec fn delete_message_text(timestamp: u64, id: Seq<char>) -> Seq<char> {
    decimal(timestamp as nat) + " - delete: "@ + id
}

/// The message of a commit that stores the graph `id` at `timestamp`.
pub fn update_message(timestamp: u64, id: &str) -> (message: String)
    ensures
        message@ == update_message_text(timestamp, id@),
{
    let mut message = String::new();
    push_decimal(&mut message, timestamp);
    message.append(" - update: ");
    message.append(id);
    message
}

/// The message of a commit that deletes the graph `id` at `timestamp`.
pub fn delete_message(timestamp: u64, id: &str) -> (message: String)
    ensures
        message@ == delete_message_text(timestamp, id@),
{
    let mut message = String::new();
    push_decimal(&mut message, timestamp);
    message.append(" - delete: ");
    message.append(id);
    message
}

proof fn lemma_token_ends_at(s: Seq<char>, from: int, end: int)
    requires
        0 <= from <= end <= s.len(),
        forall|i: int| from <= i < end ==> !is_whitespace(#[trigger] s[i]),
        end == s.len() || is_whitespace(s[end]),
    ensures
        skip_token(s, from) == end,
    decreases end - from,
{
    if from < end {
        lemma_token_ends_at(s, from + 1, end);
    }
}

/// A text that starts with the decimal notation of `timestamp`, followed by
/// whitespace, carries that timestamp.
pub proof fn lemma_leading_decimal(timestamp: u64, rest: Seq<char>)
    requires
        rest.len() > 0,
        is_whitespace(rest[0]),
    ensures
        timestamp_of(decimal(timestamp as nat) + rest) == timestamp,
{
    let digits = decimal(timestamp as nat);
    let s = digits + rest;
    lemma_decimal_digits(timestamp as nat);
    assert forall|i: int| 0 <= i < digits.len() implies !is_whitespace(#[trigger] s[i]) by {
        assert(s[i] == digits[i]);
        assert(is_digit(digits[i]));
    }
    assert(s[digits.len() as int] == rest[0]);
    assert(skip_whitespace(s, 0) == 0);
    lemma_token_ends_at(s, 0, digits.len() as int);
    assert(first_token(s) == digits);
    lemma_parse_decimal(timestamp);
}

/// The first token of a message made by [`update_message`] is its timestamp.
pub proof fn lemma_update_message_timestamp(timestamp: u64, id: Seq<char>)
    ensures
        timestamp_of(update_message_text(timestamp, id)) == timestamp,
{
    reveal_strlit(" - update: ");
    let rest = " - update: "@ + id;
    assert(rest[0] == ' ');
    lemma_leading_decimal(timestamp, rest);
    assert(decimal(timestamp as nat) + rest == update_message_text(timestamp, id));
}

/// The first token of a message made by [`delete_message`] is its timestamp.
pub proof fn lemma_delete_message_timestamp(timestamp: u64, id: Seq<char>)
    ensures
        timestamp_of(delete_message_text(timestamp, id)) == timestamp,
{
    reveal_strlit(" - delete: ");
    let rest = " - delete: "@ + id;
    assert(rest[0] == ' ');
    lemma_leading_decimal(timestamp, rest);
    assert(decimal(timestamp as nat) + rest == delete_message_text(timestamp, id));
}

/// Whether the timestamps of `s` never go down.
pub open spec fn sorted_by_time(s: Seq<(u64, Oid)>) -> bool {
    forall|i: int, j: int| 0 <= i <= j < s.len() ==> s[i].0 <= s[j].0
}

/// How many entries of `s` stand before the place of a commit of time `t`:
/// the place is just behind the last entry that is not later than `t`.
pub open spec fn insertion_point(s: Seq<(u64, Oid)>, t: u64) -> int
    decreases s.len(),
{
    if s.len() == 0 || s.last().0 <= t {
        s.len() as int
    } else {
        insertion_point(s.drop_last(), t)
    }
}

/// `s` with `entry` put at its place.
pub open spec fn insert_by_time(s: Seq<(u64, Oid)>, entry: (u64, Oid)) -> Seq<(u64, Oid)> {
    s.insert(insertion_point(s, entry.0), entry)
}

/// The entries of `s` in the order of their timestamps; entries of one
/// timestamp keep the order they had.
pub open spec fn sort_by_time(s: Seq<(u64, Oid)>) -> Seq<(u64, Oid)>
    decreases s.len(),
{
    if s.len() == 0 {
        s
    } else {
        insert_by_time(sort_by_time(s.drop_last()), s.last())
    }
}

/// The timestamp and identifier of a commit.
pub open spec fn commit_time(commit: Commit) -> (u64, Oid) {
    match commit.message {
        Some(message) => (timestamp_of(message@), commit.oid),
        None => (0, commit.oid),
    }
}

/// The timestamps and identifiers of `commits`, in the order of `commits`.
pub open spec fn commit_times(commits: Seq<Commit>) -> Seq<(u64, Oid)> {
    commits.map_values(|commit: Commit| commit_time(commit))
}

/// The place of a commit lies inside the list, behind an entry that is not
/// later and before entries that are all later.
pub proof fn lemma_insertion_point(s: Seq<(u64, Oid)>, t: u64)
    ensures
        0 <= insertion_point(s, t) <= s.len(),
        insertion_point(s, t) > 0 ==> s[insertion_point(s, t) - 1].0 <= t,
        forall|i: int| insertion_point(s, t) <= i < s.len() ==> (#[trigger] s[i]).0 > t,
    decreases s.len(),
{
    if s.len() == 0 || s.last().0 <= t {
    } else {
        lemma_insertion_point(s.drop_last(), t);
        let k = insertion_point(s, t);
        assert forall|i: int| k <= i < s.len() implies (#[trigger] s[i]).0 > t by {
            if i < s.len() - 1 {
                assert(s.drop_last()[i] == s[i]);
            }
        }
        if k > 0 {
            assert(s.drop_last()[k - 1] == s[k - 1]);
        }
    }
}

/// The place of a commit is the one index that parts entries that are not
/// later, before it, from entries that are all later, behind it.
pub proof fn lemma_insertion_point_unique(s: Seq<(u64, Oid)>, t: u64, k: int)
    requires
        0 <= k <= s.len(),
        forall|i: int| 0 <= i < k ==> (#[trigger] s[i]).0 <= t,
        forall|i: int| k <= i < s.len() ==> (#[trigger] s[i]).0 > t,
    ensures
        insertion_point(s, t) == k,
    decreases s.len(),
{
    if s.len() == 0 {
    } else if s.last().0 <= t {
        assert(k == s.len()) by {
            if k < s.len() {
                assert(s[s.len() - 1].0 > t);
            }
        }
    } else {
        assert(k < s.len()) by {
            if k == s.len() {
                assert(s[s.len() - 1].0 <= t);
            }
        }
        let rest = s.drop_last();
        assert forall|i: int| 0 <= i < k implies (#[trigger] rest[i]).0 <= t by {
            assert(rest[i] == s[i]);
        }
        assert forall|i: int| k <= i < rest.len() implies (#[trigger] rest[i]).0 > t by {
            assert(rest[i] == s[i]);
        }
        lemma_insertion_point_unique(rest, t, k);
    }
}

/// Putting an entry at its place keeps a sorted list sorted.
pub proof fn lemma_insert_keeps_sorted(s: Seq<(u64, Oid)>, entry: (u64, Oid))
    requires
        sorted_by_time(s),
    ensures
        sorted_by_time(insert_by_time(s, entry)),
        insert_by_time(s, entry).len() == s.len() + 1,
{
    let k = insertion_point(s, entry.0);
    lemma_insertion_point(s, entry.0);
    let r = insert_by_time(s, entry);
    assert forall|i: int, j: int| 0 <= i <= j < r.len() implies r[i].0 <= r[j].0 by {
        if k > 0 {
            assert(s[k - 1].0 <= entry.0);
        }
        if i < k {
            assert(r[i] == s[i]);
            assert(s[i].0 <= entry.0) by {
                assert(s[i].0 <= s[k - 1].0);
            }
        }
        if j > k {
            assert(r[j] == s[j - 1]);
            assert(s[j - 1].0 > entry.0);
        }
        if i > k {
            assert(r[i] == s[i - 1]);
        }
        if j < k {
            assert(r[j] == s[j]);
        }
    }
}

/// Sorting yields a sorted list of the same length.
pub proof fn lemma_sort_sorted(s: Seq<(u64, Oid)>)
    ensures
        sorted_by_time(sort_by_time(s)),
        sort_by_time(s).len() == s.len(),
    decreases s.len(),
{
    if s.len() > 0 {
        lemma_sort_sorted(s.drop_last());
        lemma_insert_keeps_sorted(sort_by_time(s.drop_last()), s.last());
    }
}

/// Sorting keeps every entry, as often as it occurs.
pub proof fn lemma_sort_permutes(s: Seq<(u64, Oid)>)
    ensures
        sort_by_time(s).to_multiset() == s.to_multiset(),
    decreases s.len(),
{
    if s.len() == 0 {
    } else {
        let rest = s.drop_last();
        lemma_sort_permutes(rest);
        let sorted = sort_by_time(rest);
        lemma_insertion_point(sorted, s.last().0);
        vstd::seq_lib::to_multiset_insert(sorted, insertion_point(sorted, s.last().0), s.last());
        vstd::seq_lib::to_multiset_build(rest, s.last());
        assert(rest.push(s.last()) == s);
    }
}

/// A list that is sorted already is its own sorting: commits made with
/// timestamps that never go down stay in the order in which they were made.
pub proof fn lemma_sort_of_sorted(s: Seq<(u64, Oid)>)
    requires
        sorted_by_time(s),
    ensures
        sort_by_time(s) == s,
    decreases s.len(),
{
    if s.len() > 0 {
        let rest = s.drop_last();
        assert(sorted_by_time(rest)) by {
            assert forall|i: int, j: int| 0 <= i <= j < rest.len() implies rest[i].0
                <= rest[j].0 by {
                assert(rest[i] == s[i] && rest[j] == s[j]);
            }
        }
        lemma_sort_of_sorted(rest);
        assert(insertion_point(rest, s.last().0) == rest.len()) by {
            if rest.len() > 0 {
                assert(rest.last() == s[s.len() - 2]);
                assert(s[s.len() - 2].0 <= s[s.len() - 1].0);
            }
        }
        assert(rest.insert(rest.len() as int, s.last()) == s);
    }
}

/// The commits of a history with their logical timestamps, in the order of
/// those timestamps.
#[derive(Debug)]
pub struct CommitTimes {
    entries: Vec<(u64, Oid)>,
}

impl View for CommitTimes {
    type V = Seq<(u64, Oid)>;

    closed spec fn view(&self) -> Seq<(u64, Oid)> {
        self.entries@
    }
}

impl CommitTimes {
    #[verifier::type_invariant]
    spec fn ordered(&self) -> bool {
        sorted_by_time(self.entries@)
    }

    /// The number of commits.
    pub fn len(&self) -> (n: usize)
        ensures
            n == self@.len(),
    {
        self.entries.len()
    }

    /// The entries, sorted by timestamp.
    pub fn entries(&self) -> (entries: &Vec<(u64, Oid)>)
        ensures
            entries@ == self@,
            sorted_by_time(entries@),
    {
        proof {
            use_type_invariant(self);
        }
        &self.entries
    }

    /// The entry with the least timestamp.
    pub fn first(&self) -> (entry: Option<(u64, Oid)>)
        ensures
            entry == if self@.len() == 0 {
                None
            } else {
                Some(self@.first())
            },
    {
        if self.entries.len() == 0 {
            None
        } else {
            Some(self.entries[0])
        }
    }

    /// The entry with the greatest timestamp.
    pub fn last(&self) -> (entry: Option<(u64, Oid)>)
        ensures
            entry == if self@.len() == 0 {
                None
            } else {
                Some(self@.last())
            },
    {
        if self.entries.len() == 0 {
            None
        } else {
            Some(self.entries[self.entries.len() - 1])
        }
    }
}

/// The commits of a history walk with the timestamps of their messages,
/// sorted by those timestamps. A commit without a readable message or
/// timestamp counts as of time 0.
pub fn list_commit_times(commits: &Vec<Commit>) -> (times: CommitTimes)
    ensures
        times@ == sort_by_time(commit_times(commits@)),
        sorted_by_time(times@),
        times@.len() == commits.len(),
        times@.to_multiset() == commit_times(commits@).to_multiset(),
        sorted_by_time(commit_times(commits@)) ==> times@ == commit_times(commits@),
{
    let ghost all = commit_times(commits@);
    let mut entries: Vec<(u64, Oid)> = Vec::new();
    let mut i: usize = 0;
    while i < commits.len()
        invariant
            i <= commits.len(),
            all == commit_times(commits@),
            entries@ == sort_by_time(all.take(i as int)),
            sorted_by_time(entries@),
            entries@.len() == i,
        decreases commits.len() - i,
    {
        let timestamp = match &commits[i].message {
            Some(message) => timestamp_from_message(message.as_str()),
            None => 0,
        };
        let entry = (timestamp, commits[i].oid);
        assert(entry == all[i as int]);
        let mut place: usize = entries.len();
        assert(entries@.take(place as int) == entries@);
        while place > 0 && entries[place - 1].0 > timestamp
            invariant
                place <= entries.len(),
                insertion_point(entries@, timestamp) == insertion_point(
                    entries@.take(place as int),
                    timestamp,
                ),
            decreases place,
        {
            assert(entries@.take(place as int).drop_last() == entries@.take(place - 1));
            place = place - 1;
        }
        assert(insertion_point(entries@, timestamp) == place) by {
            assert(entries@.take(entries.len() as int) == entries@);
            if place > 0 {
                assert(entries@.take(place as int).last() == entries@[place - 1]);
            }
        }
        proof {
            lemma_insert_keeps_sorted(entries@, entry);
            assert(all.take(i + 1).drop_last() == all.take(i as int));
            assert(all.take(i + 1).last() == entry);
        }
        entries.insert(place, entry);
        i = i + 1;
    }
    proof {
        assert(all.take(commits.len() as int) == all);
        lemma_sort_permutes(all);
        if sorted_by_time(all) {
            lemma_sort_of_sorted(all);
        }
    }
    CommitTimes { entries }
}

/// The commit whose tree is the state at `timestamp`: the last entry that is
/// not later than `timestamp`; none where every entry is later.
pub open spec fn state_at(s: Seq<(u64, Oid)>, timestamp: u64) -> Option<Oid> {
    let k = insertion_point(s, timestamp);
    if k == 0 {
        None
    } else {
        Some(s[k - 1].1)
    }
}

/// In a sorted history the state at a timestamp is that of the commit with
/// the greatest timestamp that is not later, and there is no state exactly
/// where every commit is later.
pub proof fn lemma_state_at(s: Seq<(u64, Oid)>, timestamp: u64)
    requires
        sorted_by_time(s),
    ensures
        state_at(s, timestamp) is None <==> forall|i: int|
            0 <= i < s.len() ==> (#[trigger] s[i]).0 > timestamp,
        state_at(s, timestamp) is Some ==> {
            let k = insertion_point(s, timestamp);
            &&& 0 < k <= s.len()
            &&& state_at(s, timestamp) == Some(s[k - 1].1)
            &&& s[k - 1].0 <= timestamp
            &&& forall|i: int|
                0 <= i < s.len() && (#[trigger] s[i]).0 <= timestamp ==> s[i].0 <= s[k - 1].0 && i
                    < k
        },
{
    lemma_insertion_point(s, timestamp);
    let k = insertion_point(s, timestamp);
    if k > 0 {
        assert forall|i: int| 0 <= i < s.len() && (#[trigger] s[i]).0 <= timestamp implies s[i].0
            <= s[k - 1].0 && i < k by {
            if i >= k {
                assert(s[i].0 > timestamp);
            }
        }
        assert(!(s[k - 1].0 > timestamp));
    }
}

/// The commit whose tree is the state at `timestamp`, found by bisection.
pub fn oid_of_timestamp(times: &CommitTimes, timestamp: u64) -> (oid: Option<Oid>)
    ensures
        oid == state_at(times@, timestamp),
{
    proof {
        use_type_invariant(times);
    }
    let entries = &times.entries;
    let mut low: usize = 0;
    let mut high: usize = entries.len();
    while low < high
        invariant
            low <= high <= entries.len(),
            sorted_by_time(entries@),
            forall|i: int| 0 <= i < low ==> (#[trigger] entries@[i]).0 <= timestamp,
            forall|i: int| high <= i < entries.len() ==> (#[trigger] entries@[i]).0 > timestamp,
        decreases high - low,
    {
        let middle = low + (high - low) / 2;
        if entries[middle].0 <= timestamp {
            assert forall|i: int| 0 <= i < middle + 1 implies (#[trigger] entries@[i]).0
                <= timestamp by {
                assert(entries@[i].0 <= entries@[middle as int].0);
            }
            low = middle + 1;
        } else {
            assert forall|i: int| middle <= i < entries.len() implies (#[trigger] entries@[i]).0
                > timestamp by {
                assert(entries@[middle as int].0 <= entries@[i].0);
            }
            high = middle;
        }
    }
    proof {
        lemma_insertion_point_unique(entries@, timestamp, low as int);
    }
    if low == 0 {
        None
    } else {
        Some(entries[low - 1].1)
    }
}

/// What to check out for a timestamp: the commit, the branch that is made to
/// point at it, named after the commit, and the reference of that branch.
#[derive(Debug)]
pub struct Checkout {
    pub oid: Oid,
    pub branch: String,
    pub refname: String,
}

/// What to check out so that the working tree shows the state at
/// `timestamp`; `None` where there is no state yet, before the first write.
pub fn checkout_timestamp(times: &CommitTimes, timestamp: u64) -> (target: Option<Checkout>)
    ensures
        target is Some == state_at(times@, timestamp) is Some,
        target matches Some(checkout) ==> {
            &&& state_at(times@, timestamp) == Some(checkout.oid)
            &&& checkout.branch@ == crate::text::hex(checkout.oid.bytes@)
            &&& checkout.refname@ == "refs/heads/"@ + crate::text::hex(checkout.oid.bytes@)
        },
{
    match oid_of_timestamp(times, timestamp) {
        None => None,
        Some(oid) => {
            let branch = oid.hex();
            let mut refname = String::from_str("refs/heads/");
            refname.append(branch.as_str());
            Some(Checkout { oid, branch, refname })
        },
    }
}

/// Whether an attempt to create the branch of a checkout leaves the branch
/// in place: it was created, or a reference of that name exists already.
pub open spec fn branch_in_place(outcome: Result<(), GitError>) -> bool {
    match outcome {
        Ok(_) => true,
        Err(e) => e.class == GitErrorClass::Reference && e.code == GitErrorCode::Exists,
    }
}

/// Judges the attempt to create the branch of a checkout: that the
/// reference exists already is no failure, every other error is.
pub fn branch_created(outcome: Result<(), GitError>) -> (result: Result<(), Error>)
    ensures
        result is Ok == branch_in_place(outcome),
        result matches Err(e) ==> (outcome matches Err(cause) && e == Error::GitError(cause)),
{
    match outcome {
        Ok(_) => Ok(()),
        Err(e) => {
            if e.class == GitErrorClass::Reference && e.code == GitErrorCode::Exists {
                Ok(())
            } else {
                Err(Error::GitError(e))
            }
        },
    }
}

/// What a commit does to its path in the index.
#[derive(Clone, Copy, Debug, PartialEq, Eq, Structural)]
pub enum Change {
    /// The path is added as the working tree holds it.
    Add,
    /// The path is removed.
    Remove,
}

/// A commit to make: the reference that it moves, which is the main branch
/// whatever `HEAD` points at, the path, what becomes of it in the index, the
/// message, the parent, absent for the first commit of an empty repository,
/// and the name and address that author and committer both carry.
#[derive(Debug)]
pub struct CommitPlan {
    pub reference: String,
    pub path: String,
    pub change: Change,
    pub message: String,
    pub parent: Option<Oid>,
    pub author_name: String,
    pub author_email: String,
}

/// Whether a commit at `timestamp` on top of `head` would break the order of
/// the history: there is a latest commit, and it is later than `timestamp`.
pub open spec fn commit_refused(s: Seq<(u64, Oid)>, head: Option<Oid>, timestamp: u64) -> bool {
    head is Some && s.len() > 0 && timestamp < s.last().0
}

/// Plans the commit of `path`, added or removed as `change` says, at
/// `timestamp` on top of `head`, the tip of the main branch.
///
/// The message has to carry the timestamp as its first token. On an empty
/// repository, where `head` has no target, the commit has no parent. Else
/// its one parent is `head`, and a timestamp older than that of the latest
/// commit is refused, so that the history stays in the order of its
/// timestamps. Author and committer of every commit are the store itself,
/// [`AUTHOR_NAME`] at [`AUTHOR_EMAIL`].
pub fn commit_file(
    times: &CommitTimes,
    head: Option<Oid>,
    path: &str,
    message: String,
    timestamp: u64,
    change: Change,
) -> (plan: Result<CommitPlan, Error>)
    ensures
        timestamp_of(message@) != timestamp ==> (plan matches Err(
            Error::TimestampMismatch { timestamp: t, found: f },
        ) && t == timestamp && f == timestamp_of(message@)),
        timestamp_of(message@) == timestamp && commit_refused(times@, head, timestamp) ==> (
        plan matches Err(Error::OutOfOrder { timestamp: t, latest: l }) && t == timestamp && l
            == times@.last().0),
        timestamp_of(message@) == timestamp && !commit_refused(times@, head, timestamp) ==> (
        plan matches Ok(commit) && commit.path@ == path@ && commit.message@ == message@
            && commit.parent == head && commit.change == change && commit.reference@
            == MAIN_REF@ && commit.author_name@ == AUTHOR_NAME@
            && commit.author_email@ == AUTHOR_EMAIL@),
{
    let found = timestamp_from_message(message.as_str());
    if found != timestamp {
        return Err(Error::TimestampMismatch { timestamp, found });
    }
    if head.is_some() {
        match times.last() {
            Some(latest) => {
                if timestamp < latest.0 {
                    return Err(Error::OutOfOrder { timestamp, latest: latest.0 });
                }
            },
            None => {},
        }
    }
    Ok(
        CommitPlan {
            reference: String::from_str(MAIN_REF),
            path: String::from_str(path),
            change,
            message,
            parent: head,
            author_name: String::from_str(AUTHOR_NAME),
            author_email: String::from_str(AUTHOR_EMAIL),
        },
    )
}

/// A commit that [`commit_file`] lets through keeps the history in the order
/// of its timestamps, one entry longer.
pub proof fn lemma_commit_keeps_order(s: Seq<(u64, Oid)>, timestamp: u64, oid: Oid)
    requires
        sorted_by_time(s),
        s.len() == 0 || timestamp >= s.last().0,
    ensures
        sorted_by_time(s.push((timestamp, oid))),
        sort_by_time(s.push((timestamp, oid))) == s.push((timestamp, oid)),
        s.push((timestamp, oid)).len() == s.len() + 1,
{
    let r = s.push((timestamp, oid));
    assert forall|i: int, j: int| 0 <= i <= j < r.len() implies r[i].0 <= r[j].0 by {
        if j == s.len() && i < s.len() {
            assert(s[i].0 <= s[s.len() - 1].0);
        }
    }
    lemma_sort_of_sorted(r);
}

/// The message with which the version-control service says that a
/// repository has no `HEAD` because its default branch is `master`.
pub const MISSING_MASTER: &'static str = "reference 'refs/heads/master' not found";

/// Whether `HEAD` has to be set to the main branch before a fetch: it has
/// no target, for the reason that [`MISSING_MASTER`] gives.
pub fn head_needs_main(head: &Result<Option<Oid>, GitError>) -> (needed: bool)
    ensures
        needed == (head matches Err(e) && e.message@ == MISSING_MASTER@),
{
    match head {
        Ok(_) => false,
        Err(e) => crate::text::same_text(e.message.as_str(), MISSING_MASTER),
    }
}

/// How the commit that a fetch brought relates to the local history.
#[derive(Clone, Copy, Debug, PartialEq, Eq, Structural)]
pub struct MergeAnalysis {
    pub up_to_date: bool,
    pub fast_forward: bool,
}

/// Decides what follows a fetch of the main branch. `fetched` is the
/// analysis of the fetched commit, absent where upstream is empty.
///
/// `Ok(false)`: nothing to do, upstream is empty or not ahead. `Ok(true)`:
/// the main branch is to be moved to the fetched commit and checked out.
/// A history that has diverged is an error.
pub fn checkout_main_and_fetch_updates(fetched: Option<MergeAnalysis>) -> (updated: Result<
    bool,
    Error,
>)
    ensures
        match fetched {
            None => updated matches Ok(changed) && !changed,
            Some(analysis) => if analysis.up_to_date {
                updated matches Ok(changed) && !changed
            } else if analysis.fast_forward {
                updated matches Ok(changed) && changed
            } else {
                updated matches Err(Error::NonFastForward)
            },
        },
{
    match fetched {
        None => Ok(false),
        Some(analysis) => {
            if analysis.up_to_date {
                Ok(false)
            } else if analysis.fast_forward {
                Ok(true)
            } else {
                Err(Error::NonFastForward)
            }
        },
    }
}

/// A logical timestamp as the signed number of the metadata: itself where
/// it fits, else the greatest signed number.
pub open spec fn metadata_time(timestamp: u64) -> i64 {
    if timestamp <= i64::MAX as u64 {
        timestamp as i64
    } else {
        i64::MAX
    }
}

fn to_metadata_time(timestamp: u64) -> (time: i64)
    ensures
        time == metadata_time(timestamp),
{
    if timestamp <= i64::MAX as u64 {
        timestamp as i64
    } else {
        i64::MAX
    }
}

/// The span of a history: its first and its last logical timestamp, both
/// absent for an empty history.
pub fn repo_metadata(times: &CommitTimes) -> (metadata: Metadata)
    ensures
        metadata.start_time == if times@.len() == 0 {
            None
        } else {
            Some(metadata_time(times@.first().0))
        },
        metadata.end_time == if times@.len() == 0 {
            None
        } else {
            Some(metadata_time(times@.last().0))
        },
{
    let start_time = match times.first() {
        Some(entry) => Some(to_metadata_time(entry.0)),
        None => None,
    };
    let end_time = match times.last() {
        Some(entry) => Some(to_metadata_time(entry.0)),
        None => None,
    };
    Metadata { start_time, end_time }
}

/// How the working copy of a replica comes to be at start.
#[derive(Clone, Copy, Debug, PartialEq, Eq, Structural)]
pub enum ReplicaSetup {
    /// Open the repository in the directory; where there is none, clone
    /// upstream into it.
    OpenOrClone,
    /// Copy the directory of replica 0, then open the copy.
    CopyFirst,
    /// Open the directory that is there.
    Open,
}

/// How replica `index` is set up: replica 0 is opened or cloned, each other
/// one is a copy of replica 0 unless its directory is present.
pub fn replica_setup(index: u64, present: bool) -> (setup: ReplicaSetup)
    ensures
        index == 0 ==> setup == ReplicaSetup::OpenOrClone,
        index != 0 && present ==> setup == ReplicaSetup::Open,
        index != 0 && !present ==> setup == ReplicaSetup::CopyFirst,
{
    if index == 0 {
        ReplicaSetup::OpenOrClone
    } else if present {
        ReplicaSetup::Open
    } else {
        ReplicaSetup::CopyFirst
    }
}

/// The directory of replica `index` under `root_path`: the directory named
/// by the decimal index.
pub fn replica_path(root_path: &str, index: u64) -> (path: String)
    ensures
        path@ == root_path@ + "/"@ + decimal(index as nat),
{
    let mut path = String::from_str(root_path);
    path.append("/");
    push_decimal(&mut path, index);
    path
}

/// Whether every replica of `idle` exists in a pool of `size` replicas.
pub open spec fn replicas_below(idle: Seq<u64>, size: u64) -> bool {
    forall|i: int| 0 <= i < idle.len() ==> #[trigger] idle[i] < size
}

/// The replicas of a store, numbered from 0, of which each is either idle
/// in the pool or leased to one caller.
#[derive(Debug)]
pub struct ReusableRepoPool {
    size: u64,
    idle: Vec<u64>,
}

impl ReusableRepoPool {
    /// No replica is idle twice, and each idle replica is one of the pool.
    pub closed spec fn wf(&self) -> bool {
        self.idle@.no_duplicates() && replicas_below(self.idle@, self.size)
    }

    /// The number of replicas, idle and leased.
    pub closed spec fn size(&self) -> u64 {
        self.size
    }

    /// The idle replicas; the last one is lent next.
    pub closed spec fn idle(&self) -> Seq<u64> {
        self.idle@
    }

    /// Whether `replica` is lent out.
    pub open spec fn leased(&self, replica: u64) -> bool {
        replica < self.size() && !self.idle().contains(replica)
    }

    /// A pool of `size` replicas, all idle.
    pub fn new(size: u64) -> (pool: ReusableRepoPool)
        ensures
            pool.wf(),
            pool.size() == size,
            pool.idle() == Seq::new(size as nat, |i: int| i as u64),
    {
        let mut idle: Vec<u64> = Vec::new();
        let mut i: u64 = 0;
        while i < size
            invariant
                i <= size,
                idle@ == Seq::new(i as nat, |k: int| k as u64),
            decreases size - i,
        {
            idle.push(i);
            i = i + 1;
        }
        ReusableRepoPool { size, idle }
    }

    /// Lends an idle replica, the one that came back last; `None` where all
    /// are lent out. A replica that is lent is no longer in the pool, so no
    /// second caller gets it before it is given back.
    pub fn pop(&mut self) -> (replica: Option<u64>)
        requires
            old(self).wf(),
        ensures
            final(self).wf(),
            final(self).size() == old(self).size(),
            replica is None <==> old(self).idle().len() == 0,
            replica is None ==> final(self).idle() == old(self).idle(),
            replica matches Some(r) ==> {
                &&& r == old(self).idle().last()
                &&& final(self).idle() == old(self).idle().drop_last()
                &&& !old(self).leased(r)
                &&& final(self).leased(r)
            },
    {
        let ghost before = self.idle@;
        let replica = self.idle.pop();
        proof {
            if before.len() > 0 {
                lemma_lease_is_exclusive(before);
                assert(before.contains(before[before.len() - 1]));
                assert(replicas_below(before.drop_last(), self.size)) by {
                    assert forall|i: int|
                        0 <= i < before.drop_last().len() implies #[trigger] before.drop_last()[i]
                        < self.size by {
                        assert(before[i] < self.size);
                    }
                }
            }
        }
        replica
    }

    /// Gives `replica` back to the pool. Refused, with the pool unchanged, is
    /// a replica that the pool does not have or that is idle already.
    pub fn push(&mut self, replica: u64) -> (accepted: bool)
        requires
            old(self).wf(),
        ensures
            final(self).wf(),
            final(self).size() == old(self).size(),
            accepted == old(self).leased(replica),
            accepted ==> final(self).idle() == old(self).idle().push(replica),
            !accepted ==> final(self).idle() == old(self).idle(),
    {
        if replica >= self.size {
            return false;
        }
        let mut i: usize = 0;
        while i < self.idle.len()
            invariant
                i <= self.idle.len(),
                self.wf(),
                self.idle@ == old(self).idle@,
                self.size == old(self).size,
                forall|k: int| 0 <= k < i ==> self.idle@[k] != replica,
            decreases self.idle.len() - i,
        {
            if self.idle[i] == replica {
                assert(self.idle@.contains(replica));
                return false;
            }
            i = i + 1;
        }
        let ghost before = self.idle@;
        assert(!before.contains(replica));
        self.idle.push(replica);
        proof {
            let after = before.push(replica);
            assert forall|i: int, j: int|
                0 <= i < after.len() && 0 <= j < after.len() && i != j implies after[i]
                != after[j] by {
                if i < before.len() && j < before.len() {
                    assert(before[i] != before[j]);
                } else if i < before.len() {
                    assert(before.contains(before[i]));
                } else {
                    assert(before.contains(before[j]));
                }
            }
            assert(replicas_below(after, self.size)) by {
                assert forall|i: int| 0 <= i < after.len() implies #[trigger] after[i]
                    < self.size by {
                    if i < before.len() {
                        assert(before[i] < self.size);
                    }
                }
            }
        }
        true
    }

    /// The number of idle replicas.
    pub fn available(&self) -> (n: usize)
        ensures
            n == self.idle().len(),
    {
        self.idle.len()
    }
}

/// No replica is lent twice: among replicas that are all different, the one
/// that a lease takes is not among those that stay for later leases.
pub proof fn lemma_lease_is_exclusive(idle: Seq<u64>)
    requires
        idle.no_duplicates(),
        idle.len() > 0,
    ensures
        !idle.drop_last().contains(idle.last()),
        idle.drop_last().no_duplicates(),
{
    let rest = idle.drop_last();
    if rest.contains(idle.last()) {
        let k = choose|k: int| 0 <= k < rest.len() && rest[k] == idle.last();
        assert(idle[k] == idle[idle.len() - 1]);
    }
    assert forall|i: int, j: int|
        0 <= i < rest.len() && 0 <= j < rest.len() && i != j implies rest[i] != rest[j] by {
        assert(idle[i] != idle[j]);
    }
}

} // verus!
