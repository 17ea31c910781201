//! The commit store: the change history of a project.
//!
//! Commits form a chain. The parent of a new commit is the newest commit
//! there is, and its id is the SHA-256 digest, in hexadecimal, of the parent's
//! id (or `root`), the commit's timestamp and the SQL statements of its
//! changes, one after the other.
//!
//! The rows themselves live in a local database that the caller reads and
//! writes. This module makes the commit to write, and puts what was read in
//! order.

use vstd::prelude::*;
use crate::text::{text_eq, text_less, text_lt};
use crate::trusted::{hex_encode, hex_lower, now_rfc3339, sha256, sha256_digest};

verus! {

// ---------------------------------------------------------------------------
// Data
// ---------------------------------------------------------------------------

/// One commit of the history.
#[derive(Debug)]
pub struct Commit {
    pub id: String,
    pub parent_id: Option<String>,
    pub message: String,
    pub summary: String,
    /// The moment of the commit, as RFC 3339 text.
    pub created_at: String,
    pub change_count: i64,
}

/// One change of a commit, as the store holds it.
#[derive(Debug)]
pub struct CommitChange {
    pub id: i64,
    pub commit_id: String,
    pub change_type: String,
    pub schema_name: String,
    pub table_name: String,
    pub data: String,
    pub original_data: Option<String>,
    pub sql: String,
    pub sort_order: i64,
}

/// A commit with its changes.
#[derive(Debug)]
pub struct CommitDetail {
    pub commit: Commit,
    pub changes: Vec<CommitChange>,
}

/// A request to save a commit.
#[derive(Debug)]
pub struct SaveCommitRequest {
    pub project_id: String,
    pub message: String,
    pub summary: String,
    pub changes: Vec<SaveCommitChange>,
}

/// One change of a commit to save.
#[derive(Debug)]
pub struct SaveCommitChange {
    pub change_type: String,
    pub schema_name: String,
    pub table_name: String,
    pub data: String,
    pub original_data: Option<String>,
    pub sql: String,
}

pub struct CommitStore;

// ---------------------------------------------------------------------------
// The mathematical values
// ---------------------------------------------------------------------------

/// What a `Commit` stands for.
pub struct CommitModel {
    pub id: Seq<char>,
    pub parent_id: Option<Seq<char>>,
    pub message: Seq<char>,
    pub summary: Seq<char>,
    pub created_at: Seq<char>,
    pub change_count: i64,
}

/// What a `CommitChange` stands for.
pub struct ChangeModel {
    pub id: i64,
    pub commit_id: Seq<char>,
    pub change_type: Seq<char>,
    pub schema_name: Seq<char>,
    pub table_name: Seq<char>,
    pub data: Seq<char>,
    pub original_data: Option<Seq<char>>,
    pub sql: Seq<char>,
    pub sort_order: i64,
}

/// The text of an optional string.
pub open spec fn optional_text(o: Option<String>) -> Option<Seq<char>> {
    match o {
        Some(s) => Some(s@),
        None => None,
    }
}

impl View for Commit {
    type V = CommitModel;

    open spec fn view(&self) -> CommitModel {
        CommitModel {
            id: self.id@,
            parent_id: optional_text(self.parent_id),
            message: self.message@,
            summary: self.summary@,
            created_at: self.created_at@,
            change_count: self.change_count,
        }
    }
}

impl View for CommitChange {
    type V = ChangeModel;

    open spec fn view(&self) -> ChangeModel {
        ChangeModel {
            id: self.id,
            commit_id: self.commit_id@,
            change_type: self.change_type@,
            schema_name: self.schema_name@,
            table_name: self.table_name@,
            data: self.data@,
            original_data: optional_text(self.original_data),
            sql: self.sql@,
            sort_order: self.sort_order,
        }
    }
}

/// The models of a list of commits.
pub open spec fn commit_models(commits: Seq<Commit>) -> Seq<CommitModel> {
    Seq::new(commits.len(), |i: int| commits[i]@)
}

/// The models of a list of changes.
pub open spec fn change_models(changes: Seq<CommitChange>) -> Seq<ChangeModel> {
    Seq::new(changes.len(), |i: int| changes[i]@)
}

// ---------------------------------------------------------------------------
// The commit id
// ---------------------------------------------------------------------------

/// The UTF-8 bytes of the texts, one after the other.
pub open spec fn all_bytes(texts: Seq<Seq<char>>) -> Seq<u8>
    decreases texts.len(),
{
    if texts.len() == 0 {
        Seq::empty()
    } else {
        all_bytes(texts.drop_last()) + vstd::utf8::encode_utf8(texts.last())
    }
}

/// What is hashed for a commit: the parent's id, or `root` where there is no
/// parent, then the timestamp, then the statements.
pub open spec fn commit_preimage(
    parent_id: Option<Seq<char>>,
    timestamp: Seq<char>,
    statements: Seq<Seq<char>>,
) -> Seq<u8> {
    vstd::utf8::encode_utf8(
        match parent_id {
            Some(p) => p,
            None => "root"@,
        },
    ) + vstd::utf8::encode_utf8(timestamp) + all_bytes(statements)
}

/// The id of a commit: the SHA-256 digest of its preimage, in lower-case
/// hexadecimal.
pub open spec fn commit_id(
    parent_id: Option<Seq<char>>,
    timestamp: Seq<char>,
    statements: Seq<Seq<char>>,
) -> Seq<char> {
    hex_lower(sha256(commit_preimage(parent_id, timestamp, statements)))
}

/// The SQL statements of the changes of a request, in order.
pub open spec fn statements_of(changes: Seq<SaveCommitChange>) -> Seq<Seq<char>> {
    Seq::new(changes.len(), |i: int| changes[i].sql@)
}

/// Hexadecimal text is twice as long as the bytes.
pub proof fn lemma_hex_length(bytes: Seq<u8>)
    ensures
        hex_lower(bytes).len() == 2 * bytes.len(),
    decreases bytes.len(),
{
    if bytes.len() > 0 {
        lemma_hex_length(bytes.drop_last());
    }
}

fn push_text_bytes(out: &mut Vec<u8>, s: &str)
    ensures
        final(out)@ == old(out)@ + vstd::utf8::encode_utf8(s@),
{
    let bytes = s.as_bytes();
    let mut i: usize = 0;
    while i < bytes.len()
        invariant
            i <= bytes.len(),
            bytes@ == vstd::utf8::encode_utf8(s@),
            out@ == old(out)@ + bytes@.take(i as int),
        decreases bytes.len() - i,
    {
        out.push(bytes[i]);
        i += 1;
        assert(bytes@.take(i as int) == bytes@.take(i - 1).push(bytes@[i - 1]));
    }
    assert(bytes@.take(bytes.len() as int) == bytes@);
}

// ---------------------------------------------------------------------------
// Order
// ---------------------------------------------------------------------------

/// `sorted` with `c` put before the first commit that is not newer than `c`.
pub open spec fn insert_newest(sorted: Seq<CommitModel>, c: CommitModel) -> Seq<CommitModel>
    decreases sorted.len(),
{
    if sorted.len() == 0 {
        seq![c]
    } else if text_lt(c.created_at, sorted[0].created_at) {
        seq![sorted[0]] + insert_newest(sorted.drop_first(), c)
    } else {
        seq![c] + sorted
    }
}

/// The commits by `created_at`, newest first; of two commits of one moment
/// the one that stands later in the list comes first.
pub open spec fn newest_first(commits: Seq<CommitModel>) -> Seq<CommitModel>
    decreases commits.len(),
{
    if commits.len() == 0 {
        Seq::empty()
    } else {
        insert_newest(newest_first(commits.drop_last()), commits.last())
    }
}

/// No commit is older than the one after it.
pub open spec fn is_newest_first(commits: Seq<CommitModel>) -> bool {
    forall|i: int, j: int|
        0 <= i < j < commits.len() ==> !text_lt(
            (#[trigger] commits[i]).created_at,
            (#[trigger] commits[j]).created_at,
        )
}

/// `sorted` with `c` put behind the last change whose `sort_order` is not
/// above that of `c`.
pub open spec fn insert_ordered(sorted: Seq<ChangeModel>, c: ChangeModel) -> Seq<ChangeModel>
    decreases sorted.len(),
{
    if sorted.len() == 0 {
        seq![c]
    } else if sorted[0].sort_order <= c.sort_order {
        seq![sorted[0]] + insert_ordered(sorted.drop_first(), c)
    } else {
        seq![c] + sorted
    }
}

/// The changes of the commit `id` by `sort_order`, lowest first; changes of
/// one `sort_order` keep their order.
pub open spec fn changes_of(changes: Seq<ChangeModel>, id: Seq<char>) -> Seq<ChangeModel>
    decreases changes.len(),
{
    if changes.len() == 0 {
        Seq::empty()
    } else if changes.last().commit_id == id {
        insert_ordered(changes_of(changes.drop_last(), id), changes.last())
    } else {
        changes_of(changes.drop_last(), id)
    }
}

/// No change has a higher `sort_order` than the one after it.
pub open spec fn is_ordered(changes: Seq<ChangeModel>) -> bool {
    forall|i: int, j: int|
        0 <= i < j < changes.len() ==> (#[trigger] changes[i]).sort_order <= (
        #[trigger] changes[j]).sort_order
}

/// The first commit with the id, if there is one.
pub open spec fn commit_with_id(commits: Seq<CommitModel>, id: Seq<char>) -> Option<CommitModel>
    decreases commits.len(),
{
    if commits.len() == 0 {
        None
    } else if commits[0].id == id {
        Some(commits[0])
    } else {
        commit_with_id(commits.drop_first(), id)
    }
}

/// The id of the newest commit, if there is a commit.
pub open spec fn latest_commit_id(commits: Seq<CommitModel>) -> Option<Seq<char>> {
    if commits.len() == 0 {
        None
    } else {
        Some(newest_first(commits)[0].id)
    }
}

/// Inserting at the place after the commits that are newer.
pub proof fn lemma_insert_newest(sorted: Seq<CommitModel>, c: CommitModel, at: int)
    requires
        0 <= at <= sorted.len(),
        forall|k: int| 0 <= k < at ==> text_lt(c.created_at, (#[trigger] sorted[k]).created_at),
        at < sorted.len() ==> !text_lt(c.created_at, sorted[at].created_at),
    ensures
        insert_newest(sorted, c) == sorted.insert(at, c),
    decreases sorted.len(),
{
    if sorted.len() == 0 {
        assert(sorted.insert(0, c) =~= seq![c]);
    } else if at == 0 {
        assert(sorted.insert(0, c) =~= seq![c] + sorted);
    } else {
        assert(text_lt(c.created_at, sorted[0].created_at));
        let rest = sorted.drop_first();
        assert forall|k: int| 0 <= k < at - 1 implies text_lt(
            c.created_at,
            (#[trigger] rest[k]).created_at,
        ) by {
            assert(rest[k] == sorted[k + 1]);
        }
        lemma_insert_newest(rest, c, at - 1);
        assert(sorted.insert(at, c) =~= seq![sorted[0]] + rest.insert(at - 1, c));
    }
}

/// Inserting at the place after the changes that are not above.
pub proof fn lemma_insert_ordered(sorted: Seq<ChangeModel>, c: ChangeModel, at: int)
    requires
        0 <= at <= sorted.len(),
        forall|k: int| 0 <= k < at ==> (#[trigger] sorted[k]).sort_order <= c.sort_order,
        at < sorted.len() ==> sorted[at].sort_order > c.sort_order,
    ensures
        insert_ordered(sorted, c) == sorted.insert(at, c),
    decreases sorted.len(),
{
    if sorted.len() == 0 {
        assert(sorted.insert(0, c) =~= seq![c]);
    } else if at == 0 {
        assert(sorted.insert(0, c) =~= seq![c] + sorted);
    } else {
        assert(sorted[0].sort_order <= c.sort_order);
        let rest = sorted.drop_first();
        assert forall|k: int| 0 <= k < at - 1 implies (#[trigger] rest[k]).sort_order
            <= c.sort_order by {
            assert(rest[k] == sorted[k + 1]);
        }
        lemma_insert_ordered(rest, c, at - 1);
        assert(sorted.insert(at, c) =~= seq![sorted[0]] + rest.insert(at - 1, c));
    }
}

/// Inserting a commit keeps the order and adds exactly that commit.
pub proof fn lemma_insert_newest_sorted(sorted: Seq<CommitModel>, c: CommitModel)
    requires
        is_newest_first(sorted),
    ensures
        is_newest_first(insert_newest(sorted, c)),
        insert_newest(sorted, c).to_multiset() == sorted.to_multiset().insert(c),
        insert_newest(sorted, c).len() == sorted.len() + 1,
    decreases sorted.len(),
{
    broadcast use vstd::seq_lib::group_to_multiset_ensures;

    let out = insert_newest(sorted, c);
    if sorted.len() == 0 {
        assert(sorted =~= Seq::<CommitModel>::empty());
        assert(out =~= Seq::<CommitModel>::empty().push(c));
    } else if text_lt(c.created_at, sorted[0].created_at) {
        let rest = sorted.drop_first();
        assert forall|i: int, j: int| 0 <= i < j < rest.len() implies !text_lt(
            (#[trigger] rest[i]).created_at,
            (#[trigger] rest[j]).created_at,
        ) by {
            assert(rest[i] == sorted[i + 1]);
            assert(rest[j] == sorted[j + 1]);
        }
        lemma_insert_newest_sorted(rest, c);
        let tail = insert_newest(rest, c);
        assert(out =~= seq![sorted[0]] + tail);
        // every commit of the tail is the new one or one of the rest
        assert forall|i: int, j: int| 0 <= i < j < out.len() implies !text_lt(
            (#[trigger] out[i]).created_at,
            (#[trigger] out[j]).created_at,
        ) by {
            if i == 0 {
                let x = tail[j - 1];
                assert(out[j] == x);
                assert(tail.to_multiset().count(x) > 0) by {
                    assert(tail.contains(x));
                }
                if x == c {
                    crate::text::lemma_text_lt_asymmetric(c.created_at, sorted[0].created_at);
                } else {
                    assert(rest.to_multiset().count(x) > 0);
                    assert(rest.contains(x));
                    let k = choose|k: int| 0 <= k < rest.len() && rest[k] == x;
                    assert(sorted[k + 1] == x);
                }
            } else {
                assert(out[i] == tail[i - 1]);
                assert(out[j] == tail[j - 1]);
            }
        }
        assert(sorted =~= seq![sorted[0]] + rest);
        assert(seq![sorted[0]] =~= Seq::<CommitModel>::empty().push(sorted[0]));
        vstd::seq_lib::lemma_multiset_commutative(seq![sorted[0]], tail);
        vstd::seq_lib::lemma_multiset_commutative(seq![sorted[0]], rest);
        assert(out.to_multiset() =~= sorted.to_multiset().insert(c));
    } else {
        assert(out =~= seq![c] + sorted);
        assert forall|i: int, j: int| 0 <= i < j < out.len() implies !text_lt(
            (#[trigger] out[i]).created_at,
            (#[trigger] out[j]).created_at,
        ) by {
            if i == 0 {
                let x = sorted[j - 1];
                assert(out[j] == x);
                if j - 1 > 0 {
                    // sorted[0] is not older than x, and c is not older than sorted[0]
                    assert(!text_lt(sorted[0].created_at, x.created_at));
                    crate::text::lemma_text_not_lt_transitive(
                        c.created_at,
                        sorted[0].created_at,
                        x.created_at,
                    );
                }
            } else {
                assert(out[i] == sorted[i - 1]);
                assert(out[j] == sorted[j - 1]);
            }
        }
        assert(seq![c] =~= Seq::<CommitModel>::empty().push(c));
        vstd::seq_lib::lemma_multiset_commutative(seq![c], sorted);
        assert(out.to_multiset() =~= sorted.to_multiset().insert(c));
    }
}

/// `newest_first` gives the same commits, none older than the one after it.
pub proof fn lemma_newest_first(commits: Seq<CommitModel>)
    ensures
        is_newest_first(newest_first(commits)),
        newest_first(commits).to_multiset() == commits.to_multiset(),
        newest_first(commits).len() == commits.len(),
    decreases commits.len(),
{
    broadcast use vstd::seq_lib::group_to_multiset_ensures;

    if commits.len() == 0 {
        assert(commits =~= Seq::<CommitModel>::empty());
    } else {
        lemma_newest_first(commits.drop_last());
        lemma_insert_newest_sorted(newest_first(commits.drop_last()), commits.last());
        assert(commits =~= commits.drop_last().push(commits.last()));
    }
}

/// Inserting a change keeps the order and adds exactly that change.
pub proof fn lemma_insert_ordered_sorted(sorted: Seq<ChangeModel>, c: ChangeModel)
    requires
        is_ordered(sorted),
    ensures
        is_ordered(insert_ordered(sorted, c)),
        insert_ordered(sorted, c).to_multiset() == sorted.to_multiset().insert(c),
        insert_ordered(sorted, c).len() == sorted.len() + 1,
    decreases sorted.len(),
{
    broadcast use vstd::seq_lib::group_to_multiset_ensures;

    let out = insert_ordered(sorted, c);
    if sorted.len() == 0 {
        assert(sorted =~= Seq::<ChangeModel>::empty());
        assert(out =~= Seq::<ChangeModel>::empty().push(c));
    } else if sorted[0].sort_order <= c.sort_order {
        let rest = sorted.drop_first();
        assert forall|i: int, j: int| 0 <= i < j < rest.len() implies (
        #[trigger] rest[i]).sort_order <= (#[trigger] rest[j]).sort_order by {
            assert(rest[i] == sorted[i + 1]);
            assert(rest[j] == sorted[j + 1]);
        }
        lemma_insert_ordered_sorted(rest, c);
        let tail = insert_ordered(rest, c);
        assert(out =~= seq![sorted[0]] + tail);
        // every change of the tail is the new one or one of the rest
        assert forall|i: int, j: int| 0 <= i < j < out.len() implies (
        #[trigger] out[i]).sort_order <= (#[trigger] out[j]).sort_order by {
            if i == 0 {
                let x = tail[j - 1];
                assert(out[j] == x);
                assert(tail.to_multiset().count(x) > 0) by {
                    assert(tail.contains(x));
                }
                if x != c {
                    assert(rest.to_multiset().count(x) > 0);
                    assert(rest.contains(x));
                    let k = choose|k: int| 0 <= k < rest.len() && rest[k] == x;
                    assert(sorted[k + 1] == x);
                }
            } else {
                assert(out[i] == tail[i - 1]);
                assert(out[j] == tail[j - 1]);
            }
        }
        assert(sorted =~= seq![sorted[0]] + rest);
        assert(seq![sorted[0]] =~= Seq::<ChangeModel>::empty().push(sorted[0]));
        vstd::seq_lib::lemma_multiset_commutative(seq![sorted[0]], tail);
        vstd::seq_lib::lemma_multiset_commutative(seq![sorted[0]], rest);
        assert(out.to_multiset() =~= sorted.to_multiset().insert(c));
    } else {
        assert(out =~= seq![c] + sorted);
        assert forall|i: int, j: int| 0 <= i < j < out.len() implies (
        #[trigger] out[i]).sort_order <= (#[trigger] out[j]).sort_order by {
            if i == 0 {
                assert(out[j] == sorted[j - 1]);
                if j - 1 > 0 {
                    assert(sorted[0].sort_order <= sorted[j - 1].sort_order);
                }
            } else {
                assert(out[i] == sorted[i - 1]);
                assert(out[j] == sorted[j - 1]);
            }
        }
        assert(seq![c] =~= Seq::<ChangeModel>::empty().push(c));
        vstd::seq_lib::lemma_multiset_commutative(seq![c], sorted);
        assert(out.to_multiset() =~= sorted.to_multiset().insert(c));
    }
}

/// `changes_of` gives the changes of the commit, each as often as it is
/// there, and no other change, none with a higher `sort_order` than the one
/// after it.
pub proof fn lemma_changes_of(changes: Seq<ChangeModel>, id: Seq<char>)
    ensures
        is_ordered(changes_of(changes, id)),
        forall|x: ChangeModel|
            #[trigger] changes_of(changes, id).to_multiset().count(x) == (if x.commit_id == id {
                changes.to_multiset().count(x)
            } else {
                0
            }),
    decreases changes.len(),
{
    broadcast use vstd::seq_lib::group_to_multiset_ensures;

    if changes.len() == 0 {
        assert(changes =~= Seq::<ChangeModel>::empty());
    } else {
        let before = changes.drop_last();
        lemma_changes_of(before, id);
        assert(changes =~= before.push(changes.last()));
        if changes.last().commit_id == id {
            lemma_insert_ordered_sorted(changes_of(before, id), changes.last());
        }
        assert forall|x: ChangeModel|
            #[trigger] changes_of(changes, id).to_multiset().count(x) == (if x.commit_id == id {
                changes.to_multiset().count(x)
            } else {
                0
            }) by {
            assert(changes_of(before, id).to_multiset().count(x) == (if x.commit_id == id {
                before.to_multiset().count(x)
            } else {
                0
            }));
        }
    }
}

fn take_commit(commits: Vec<Commit>, commit_id: &str) -> (r: Option<Commit>)
    ensures
        optional_commit(r) == commit_with_id(commit_models(commits@), commit_id@),
{
    let ghost commit_list = commit_models(commits@);
    let mut pool = commits;
    let ghost mut skipped: int = 0;
    assert(commit_list.skip(0) =~= commit_list);
    while pool.len() > 0
        invariant
            commit_list == commit_models(commits@),
            0 <= skipped <= commit_list.len(),
            commit_models(pool@) == commit_list.skip(skipped),
            commit_with_id(commit_list, commit_id@) == commit_with_id(
                commit_list.skip(skipped),
                commit_id@,
            ),
        decreases pool.len(),
    {
        let ghost before = commit_models(pool@);
        assert(before.len() == pool@.len());
        let c = pool.remove(0);
        proof {
            assert(c@ == before[0]);
            assert(commit_models(pool@) =~= before.drop_first());
            assert(before.drop_first() =~= commit_list.skip(skipped + 1));
        }
        if text_eq(c.id.as_str(), commit_id) {
            assert(commit_list.skip(skipped)[0] == c@);
            return Some(c);
        }
        proof {
            skipped = skipped + 1;
        }
    }
    None
}

/// The model of an optional commit.
pub open spec fn optional_commit(o: Option<Commit>) -> Option<CommitModel> {
    match o {
        Some(c) => Some(c@),
        None => None,
    }
}

impl CommitStore {
    /// The id of a commit: the SHA-256 digest, in hexadecimal, of the
    /// parent's id (`root` where there is none), the timestamp and the
    /// statements, one after the other.
    pub fn generate_hash(parent_id: &Option<String>, timestamp: &str, sql_statements: &Vec<String>) -> (r:
        String)
        ensures
            r@ == commit_id(
                optional_text(*parent_id),
                timestamp@,
                crate::text::texts(sql_statements@),
            ),
            r@.len() == 64,
    {
        let mut data: Vec<u8> = Vec::new();
        match parent_id {
            Some(p) => push_text_bytes(&mut data, p.as_str()),
            None => push_text_bytes(&mut data, "root"),
        }
        push_text_bytes(&mut data, timestamp);
        let ghost head = data@;
        let ghost statements = crate::text::texts(sql_statements@);
        let mut i: usize = 0;
        while i < sql_statements.len()
            invariant
                i <= sql_statements.len(),
                statements == crate::text::texts(sql_statements@),
                data@ == head + all_bytes(statements.take(i as int)),
            decreases sql_statements.len() - i,
        {
            proof {
                assert(statements.take(i + 1).drop_last() == statements.take(i as int));
                assert(statements.take(i + 1).last() == sql_statements@[i as int]@);
            }
            push_text_bytes(&mut data, sql_statements[i].as_str());
            i += 1;
        }
        assert(statements.take(sql_statements.len() as int) == statements);
        let digest = sha256_digest(data.as_slice());
        proof {
            lemma_hex_length(digest@);
        }
        hex_encode(digest.as_slice())
    }

    /// The id of the newest of the commits, if there is any.
    pub fn get_latest_commit_id(commits: &Vec<Commit>) -> (r: Option<String>)
        ensures
            optional_text(r) == latest_commit_id(commit_models(commits@)),
    {
        if commits.len() == 0 {
            return None;
        }
        let ghost models = commit_models(commits@);
        // the newest so far is the head of `newest_first` of what was seen
        let mut best: usize = 0;
        let mut i: usize = 1;
        proof {
            let one = models.take(1);
            assert(one.drop_last() =~= Seq::<CommitModel>::empty());
            assert(one.last() == models[0]);
            assert(newest_first(one.drop_last()) =~= Seq::<CommitModel>::empty());
            assert(newest_first(one) == insert_newest(newest_first(one.drop_last()), one.last()));
            assert(newest_first(one) =~= seq![models[0]]);
        }
        while i < commits.len()
            invariant
                1 <= i <= commits.len(),
                best < i,
                models == commit_models(commits@),
                newest_first(models.take(i as int)).len() > 0,
                newest_first(models.take(i as int))[0] == models[best as int],
            decreases commits.len() - i,
        {
            proof {
                assert(models.take(i + 1).drop_last() =~= models.take(i as int));
                assert(models.take(i + 1).last() == models[i as int]);
            }
            if !text_less(commits[i].created_at.as_str(), commits[best].created_at.as_str()) {
                best = i;
            }
            i += 1;
        }
        assert(models.take(commits.len() as int) =~= models);
        Some(commits[best].id.clone())
    }

    /// Makes the commit for a request: its parent is the newest commit so
    /// far, its timestamp the present moment, its id the hash of parent,
    /// timestamp and statements, and it counts the changes of the request.
    pub fn save_commit(request: &SaveCommitRequest, latest: Option<String>) -> (r: Commit)
        ensures
            r@.parent_id == optional_text(latest),
            r@.id == commit_id(
                optional_text(latest),
                r@.created_at,
                statements_of(request.changes@),
            ),
            r@.id.len() == 64,
            r@.message == request.message@,
            r@.summary == request.summary@,
            r@.change_count == (if request.changes@.len() <= i64::MAX {
                request.changes@.len() as i64
            } else {
                i64::MAX
            }),
    {
        let now = now_rfc3339();
        let mut statements: Vec<String> = Vec::new();
        let mut i: usize = 0;
        while i < request.changes.len()
            invariant
                i <= request.changes.len(),
                statements.len() == i,
                forall|k: int| 0 <= k < i ==> statements@[k]@ == request.changes@[k].sql@,
            decreases request.changes.len() - i,
        {
            statements.push(request.changes[i].sql.clone());
            i += 1;
        }
        assert(crate::text::texts(statements@) =~= statements_of(request.changes@));
        let hash = Self::generate_hash(&latest, now.as_str(), &statements);
        let count: u64 = request.changes.len() as u64;
        let change_count: i64 = if count <= 0x7FFF_FFFF_FFFF_FFFFu64 {
            count as i64
        } else {
            i64::MAX
        };
        Commit {
            id: hash,
            parent_id: latest,
            message: request.message.clone(),
            summary: request.summary.clone(),
            created_at: now,
            change_count,
        }
    }

    /// The change of a commit at position `index` of a request, as the store
    /// is to hold it: under the commit's id, with the position as its
    /// `sort_order`. The row id is the store's to give.
    pub fn change_row(commit: &Commit, change: &SaveCommitChange, index: i64) -> (r: CommitChange)
        ensures
            r@ == (ChangeModel {
                id: 0,
                commit_id: commit.id@,
                change_type: change.change_type@,
                schema_name: change.schema_name@,
                table_name: change.table_name@,
                data: change.data@,
                original_data: optional_text(change.original_data),
                sql: change.sql@,
                sort_order: index,
            }),
    {
        CommitChange {
            id: 0,
            commit_id: commit.id.clone(),
            change_type: change.change_type.clone(),
            schema_name: change.schema_name.clone(),
            table_name: change.table_name.clone(),
            data: change.data.clone(),
            original_data: match &change.original_data {
                Some(s) => Some(s.clone()),
                None => None,
            },
            sql: change.sql.clone(),
            sort_order: index,
        }
    }

    /// The commits of a project, newest first.
    pub fn get_commits(commits: Vec<Commit>) -> (r: Vec<Commit>)
        ensures
            commit_models(r@) == newest_first(commit_models(commits@)),
    {
        let ghost models = commit_models(commits@);
        let mut rest = commits;
        let mut sorted: Vec<Commit> = Vec::new();
        let ghost mut done: int = 0;
        assert(models.take(0) =~= Seq::<CommitModel>::empty());
        assert(commit_models(sorted@) =~= Seq::<CommitModel>::empty());
        assert(commit_models(rest@) =~= models.skip(0));
        while rest.len() > 0
            invariant
                0 <= done <= models.len(),
                commit_models(rest@) == models.skip(done),
                commit_models(sorted@) == newest_first(models.take(done)),
            decreases rest.len(),
        {
            let ghost before_rest = commit_models(rest@);
            assert(before_rest.len() == rest@.len());
            assert(models.skip(done).len() == models.len() - done);
            let c = rest.remove(0);
            proof {
                assert(c@ == before_rest[0]);
                assert(models.skip(done)[0] == models[done]);
                assert(c@ == models[done]);
                assert(commit_models(rest@) =~= before_rest.drop_first());
                assert(before_rest.drop_first() =~= models.skip(done + 1));
                assert(models.take(done + 1).drop_last() =~= models.take(done));
                assert(models.take(done + 1).last() == c@);
            }
            let mut at: usize = 0;
            while at < sorted.len() && text_less(
                c.created_at.as_str(),
                sorted[at].created_at.as_str(),
            )
                invariant
                    at <= sorted.len(),
                    forall|k: int|
                        0 <= k < at ==> text_lt(
                            c@.created_at,
                            (#[trigger] commit_models(sorted@)[k]).created_at,
                        ),
                decreases sorted.len() - at,
            {
                assert(commit_models(sorted@)[at as int] == sorted@[at as int]@);
                at += 1;
            }
            proof {
                let s = commit_models(sorted@);
                if at < sorted.len() {
                    assert(s[at as int] == sorted@[at as int]@);
                }
                lemma_insert_newest(s, c@, at as int);
            }
            let ghost before_sorted = commit_models(sorted@);
            sorted.insert(at, c);
            proof {
                assert(commit_models(sorted@) =~= before_sorted.insert(at as int, c@));
                done = done + 1;
            }
        }
        assert(models.take(models.len() as int) =~= models);
        sorted
    }

    /// The commit with the id and its changes by `sort_order`. An id that no
    /// commit has is refused.
    pub fn get_commit_detail(commit_id: &str, commits: Vec<Commit>, changes: Vec<CommitChange>) -> (r:
        Result<CommitDetail, String>)
        ensures
            match r {
                Ok(detail) => commit_with_id(commit_models(commits@), commit_id@) == Some(
                    detail.commit@,
                ) && change_models(detail.changes@) == changes_of(
                    change_models(changes@),
                    commit_id@,
                ),
                Err(message) => commit_with_id(commit_models(commits@), commit_id@) is None
                    && message@ == "Commit not found: Query returned no rows"@,
            },
    {
        let commit = match take_commit(commits, commit_id) {
            Some(c) => c,
            None => {
                return Err("Commit not found: Query returned no rows".to_owned());
            },
        };

        let ghost change_list = change_models(changes@);
        let mut rest = changes;
        let mut sorted: Vec<CommitChange> = Vec::new();
        let ghost mut done: int = 0;
        assert(change_list.take(0) =~= Seq::<ChangeModel>::empty());
        assert(change_models(sorted@) =~= Seq::<ChangeModel>::empty());
        assert(change_models(rest@) =~= change_list.skip(0));
        while rest.len() > 0
            invariant
                0 <= done <= change_list.len(),
                change_models(rest@) == change_list.skip(done),
                change_models(sorted@) == changes_of(change_list.take(done), commit_id@),
            decreases rest.len(),
        {
            let ghost before_rest = change_models(rest@);
            assert(before_rest.len() == rest@.len());
            assert(change_list.skip(done).len() == change_list.len() - done);
            let c = rest.remove(0);
            proof {
                assert(c@ == before_rest[0]);
                assert(change_list.skip(done)[0] == change_list[done]);
                assert(c@ == change_list[done]);
                assert(change_models(rest@) =~= before_rest.drop_first());
                assert(before_rest.drop_first() =~= change_list.skip(done + 1));
                assert(change_list.take(done + 1).drop_last() =~= change_list.take(done));
                assert(change_list.take(done + 1).last() == c@);
            }
            if text_eq(c.commit_id.as_str(), commit_id) {
                let mut at: usize = 0;
                while at < sorted.len() && sorted[at].sort_order <= c.sort_order
                    invariant
                        at <= sorted.len(),
                        forall|k: int|
                            0 <= k < at ==> (#[trigger] change_models(sorted@)[k]).sort_order
                                <= c@.sort_order,
                    decreases sorted.len() - at,
                {
                    assert(change_models(sorted@)[at as int] == sorted@[at as int]@);
                    at += 1;
                }
                proof {
                    let s = change_models(sorted@);
                    if at < sorted.len() {
                        assert(s[at as int] == sorted@[at as int]@);
                    }
                    lemma_insert_ordered(s, c@, at as int);
                }
                let ghost before_sorted = change_models(sorted@);
                sorted.insert(at, c);
                proof {
                    assert(change_models(sorted@) =~= before_sorted.insert(at as int, c@));
                }
            }
            proof {
                done = done + 1;
            }
        }
        assert(change_list.take(change_list.len() as int) =~= change_list);
        Ok(CommitDetail { commit, changes: sorted })
    }
}

} // verus!
