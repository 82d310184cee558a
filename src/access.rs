//! Per-file ownership and allow-lists of additional users.

use vstd::prelude::*;
use crate::text::same_text;

verus! {

/// A stored file. `accessible_user_ids` holds the users other than the
/// owner who may access it. Timestamps are milliseconds since the Unix
/// epoch.
pub struct File {
    pub id: String,
    pub filename: String,
    pub owner_id: String,
    pub accessible_user_ids: Vec<String>,
    pub created_at: i64,
}

/// A request to create a file; without a name the file is named after its
/// id.
pub struct FileUploadRequest {
    pub filename: Option<String>,
}

/// A request to replace a file's allow-list.
pub struct UpdateAccessRequest {
    pub accessible_user_ids: Vec<String>,
}

/// Why an access query failed.
#[derive(Debug, Clone, Copy, PartialEq, Eq)]
pub enum AccessError {
    /// No such file.
    NotFound,
    /// The file exists, but the user may not perform the operation.
    AccessDenied,
}

/// Why a replacement of an allow-list was refused.
#[derive(Debug, PartialEq, Eq)]
pub enum ShareError {
    /// The acting user does not own the file.
    NotOwner,
    /// The new list names this user id more than once.
    DuplicateEntry(String),
    /// The new list names a user that does not exist.
    UnknownUser(String),
    /// The new list names the owner, who has access without an entry.
    OwnerListed,
}

/// An error of [`ShareError`] with the ids it names as texts.
pub enum ShareFailure {
    NotOwner,
    DuplicateEntry(Seq<char>),
    UnknownUser(Seq<char>),
    OwnerListed,
}

impl ShareError {
    pub open spec fn view(self) -> ShareFailure {
        match self {
            ShareError::NotOwner => ShareFailure::NotOwner,
            ShareError::DuplicateEntry(d) => ShareFailure::DuplicateEntry(d@),
            ShareError::UnknownUser(u) => ShareFailure::UnknownUser(u@),
            ShareError::OwnerListed => ShareFailure::OwnerListed,
        }
    }
}

/// The texts of a list of ids.
pub open spec fn ids_of(v: Seq<String>) -> Seq<Seq<char>> {
    v.map_values(|s: String| s@)
}

/// `ids` with `user` added unless already present.
pub open spec fn granted(ids: Seq<Seq<char>>, user: Seq<char>) -> Seq<Seq<char>> {
    if ids.contains(user) {
        ids
    } else {
        ids.push(user)
    }
}

/// `ids` without any occurrence of `user`.
pub open spec fn revoked(ids: Seq<Seq<char>>, user: Seq<char>) -> Seq<Seq<char>>
    decreases ids.len(),
{
    if ids.len() == 0 {
        ids
    } else if ids.last() == user {
        revoked(ids.drop_last(), user)
    } else {
        revoked(ids.drop_last(), user).push(ids.last())
    }
}

/// `user` may access `f`: as its owner or through the allow-list.
pub open spec fn may_access(f: File, user: Seq<char>) -> bool {
    f.owner_id@ == user || ids_of(f.accessible_user_ids@).contains(user)
}

fn same_id(a: &String, b: &str) -> (r: bool)
    ensures
        r == (a@ == b@),
{
    same_text(a.as_str(), b)
}

/// Whether `ids` holds `user`.
pub fn contains_id(ids: &Vec<String>, user: &str) -> (r: bool)
    ensures
        r == ids_of(ids@).contains(user@),
{
    let mut i: usize = 0;
    while i < ids.len()
        invariant
            0 <= i <= ids@.len(),
            forall|j: int| 0 <= j < i ==> ids@[j]@ != user@,
        decreases ids@.len() - i,
    {
        if same_id(&ids[i], user) {
            assert(ids_of(ids@)[i as int] == user@);
            return true;
        }
        i = i + 1;
    }
    assert(!ids_of(ids@).contains(user@)) by {
        if ids_of(ids@).contains(user@) {
            let k = choose|k: int| 0 <= k < ids_of(ids@).len() && ids_of(ids@)[k] == user@;
            assert(ids@[k]@ != user@);
        }
    }
    false
}

/// Adds `user` to an allow-list unless it is already there.
pub fn grant(ids: &mut Vec<String>, user: &str)
    ensures
        ids_of(final(ids)@) == granted(ids_of(old(ids)@), user@),
{
    if !contains_id(ids, user) {
        ids.push(String::from_str(user));
        assert(ids_of(ids@) =~= ids_of(old(ids)@).push(user@));
    }
}

/// Removes every occurrence of `user` from an allow-list.
pub fn revoke(ids: &mut Vec<String>, user: &str)
    ensures
        ids_of(final(ids)@) == revoked(ids_of(old(ids)@), user@),
{
    let ghost before = ids_of(ids@);
    let mut kept: Vec<String> = Vec::new();
    let mut i: usize = 0;
    let n = ids.len();
    while i < n
        invariant
            n == ids@.len(),
            before == ids_of(ids@),
            0 <= i <= n,
            ids_of(kept@) == revoked(before.subrange(0, i as int), user@),
        decreases n - i,
    {
        assert(before.subrange(0, i + 1).drop_last() == before.subrange(0, i as int));
        if !same_id(&ids[i], user) {
            kept.push(ids[i].clone());
            assert(ids_of(kept@) =~= revoked(before.subrange(0, i as int), user@).push(before[i as int]));
        }
        i = i + 1;
    }
    assert(before.subrange(0, n as int) == before);
    *ids = kept;
}

/// Granting a user twice leaves the allow-list as granting once, and
/// granting never adds a second entry for a user already present;
/// revoking a user who is absent leaves the allow-list unchanged.
pub proof fn lemma_allow_list_idempotent(ids: Seq<Seq<char>>, user: Seq<char>)
    ensures
        granted(granted(ids, user), user) == granted(ids, user),
        granted(ids, user).contains(user),
        ids.contains(user) ==> granted(ids, user) == ids,
        !ids.contains(user) ==> revoked(ids, user) == ids,
        all_distinct(ids) ==> all_distinct(granted(ids, user)),
    decreases ids.len(),
{
    if all_distinct(ids) && !ids.contains(user) {
        let g = granted(ids, user);
        assert forall|k: int, i: int| 0 <= i < k < g.len() implies g[i] != g[k] by {
            if k == ids.len() {
                assert(g[i] == ids[i]);
                assert(g[k] == user);
            } else {
                assert(g[i] == ids[i] && g[k] == ids[k]);
            }
        }
    }
    if !ids.contains(user) {
        assert(granted(ids, user).last() == user);
        assert(granted(ids, user)[ids.len() as int] == user);
    }
    if !ids.contains(user) && ids.len() > 0 {
        assert(!ids.drop_last().contains(user)) by {
            if ids.drop_last().contains(user) {
                let k = choose|k: int| 0 <= k < ids.drop_last().len() && ids.drop_last()[k] == user;
                assert(ids[k] == user);
            }
        }
        assert(ids.last() != user) by {
            assert(ids[ids.len() - 1] == ids.last());
        }
        lemma_allow_list_idempotent(ids.drop_last(), user);
        assert(ids.drop_last().push(ids.last()) == ids);
    }
}

/// The owner may always access a file, whatever its allow-list holds.
pub proof fn lemma_owner_needs_no_entry(f: File)
    ensures
        may_access(f, f.owner_id@),
{
}

/// Who is on a list after granting `user`: those before, and `user`.
pub proof fn lemma_granted_members(ids: Seq<Seq<char>>, user: Seq<char>)
    ensures
        forall|x: Seq<char>| #[trigger] granted(ids, user).contains(x) <==> (ids.contains(x) || x == user),
{
    if !ids.contains(user) {
        let g = granted(ids, user);
        assert forall|x: Seq<char>| #[trigger] g.contains(x) <==> (ids.contains(x) || x == user) by {
            if g.contains(x) {
                let k = choose|k: int| 0 <= k < g.len() && g[k] == x;
                if k < ids.len() {
                    assert(ids[k] == x);
                }
            }
            if ids.contains(x) {
                let k = choose|k: int| 0 <= k < ids.len() && ids[k] == x;
                assert(g[k] == x);
            }
            if x == user {
                assert(g[ids.len() as int] == x);
            }
        }
    }
}

/// Who is on a list after revoking `user`: those before but `user`; a
/// list without repeats keeps none.
pub proof fn lemma_revoked_members(ids: Seq<Seq<char>>, user: Seq<char>)
    ensures
        forall|x: Seq<char>| #[trigger] revoked(ids, user).contains(x) <==> (ids.contains(x) && x != user),
        all_distinct(ids) ==> all_distinct(revoked(ids, user)),
    decreases ids.len(),
{
    if ids.len() > 0 {
        let d = ids.drop_last();
        let l = ids.last();
        lemma_revoked_members(d, user);
        let r = revoked(ids, user);
        let rd = revoked(d, user);
        assert(ids[ids.len() - 1] == l);
        assert forall|x: Seq<char>| #[trigger] r.contains(x) <==> (ids.contains(x) && x != user) by {
            if ids.contains(x) && x != user {
                let k = choose|k: int| 0 <= k < ids.len() && ids[k] == x;
                if k < d.len() {
                    assert(d[k] == x);
                    assert(rd.contains(x));
                    if l != user {
                        let m = choose|m: int| 0 <= m < rd.len() && rd[m] == x;
                        assert(r[m] == x);
                    }
                } else {
                    assert(r[rd.len() as int] == x);
                }
            }
            if r.contains(x) {
                let k = choose|k: int| 0 <= k < r.len() && r[k] == x;
                if l == user || k < rd.len() {
                    assert(rd[k] == x);
                    assert(rd.contains(x));
                    let m = choose|m: int| 0 <= m < d.len() && d[m] == x;
                    assert(ids[m] == x);
                }
            }
        }
        if all_distinct(ids) {
            assert(all_distinct(d)) by {
                assert forall|k: int, i: int| 0 <= i < k < d.len() implies d[i] != d[k] by {
                    assert(d[i] == ids[i] && d[k] == ids[k]);
                }
            }
            if l != user {
                assert(!rd.contains(l)) by {
                    if rd.contains(l) {
                        assert(d.contains(l));
                        let m = choose|m: int| 0 <= m < d.len() && d[m] == l;
                        assert(ids[m] == ids[ids.len() - 1]);
                    }
                }
                assert forall|k: int, i: int| 0 <= i < k < r.len() implies r[i] != r[k] by {
                    assert(r[i] == rd[i]);
                    if k == rd.len() {
                        assert(r[k] == l);
                        assert(rd.contains(rd[i]));
                    } else {
                        assert(r[k] == rd[k]);
                    }
                }
            }
        }
    }
}

/// Whether `user` owns the file the lookup found (`NotFound` when it found
/// none).
pub fn check_user_is_owner(file: Option<&File>, user: &str) -> (r: Result<bool, AccessError>)
    ensures
        match file {
            Some(f) => r == Ok::<bool, AccessError>(f.owner_id@ == user@),
            None => r == Err::<bool, AccessError>(AccessError::NotFound),
        },
{
    match file {
        Some(f) => Ok(same_id(&f.owner_id, user)),
        None => Err(AccessError::NotFound),
    }
}

/// Whether `user` may access the file the lookup found: as owner or
/// through the allow-list (`NotFound` when it found none).
pub fn check_user_can_access(file: Option<&File>, user: &str) -> (r: Result<bool, AccessError>)
    ensures
        match file {
            Some(f) => r == Ok::<bool, AccessError>(may_access(*f, user@)),
            None => r == Err::<bool, AccessError>(AccessError::NotFound),
        },
{
    match file {
        Some(f) => {
            if same_id(&f.owner_id, user) {
                Ok(true)
            } else {
                Ok(contains_id(&f.accessible_user_ids, user))
            }
        },
        None => Err(AccessError::NotFound),
    }
}

/// Admits `user` to read the file the lookup found: `NotFound` when it
/// found none, `AccessDenied` unless `user` owns it or is on its
/// allow-list.
pub fn authorize_read(file: Option<&File>, user: &str) -> (r: Result<(), AccessError>)
    ensures
        match file {
            Some(f) => r == if may_access(*f, user@) {
                Ok::<(), AccessError>(())
            } else {
                Err(AccessError::AccessDenied)
            },
            None => r == Err::<(), AccessError>(AccessError::NotFound),
        },
{
    match check_user_can_access(file, user) {
        Ok(true) => Ok(()),
        Ok(false) => Err(AccessError::AccessDenied),
        Err(e) => Err(e),
    }
}

/// Admits `user` to manage (share or delete) the file the lookup found:
/// `NotFound` when it found none, `AccessDenied` unless `user` owns it.
pub fn authorize_owner(file: Option<&File>, user: &str) -> (r: Result<(), AccessError>)
    ensures
        match file {
            Some(f) => r == if f.owner_id@ == user@ {
                Ok::<(), AccessError>(())
            } else {
                Err(AccessError::AccessDenied)
            },
            None => r == Err::<(), AccessError>(AccessError::NotFound),
        },
{
    match check_user_is_owner(file, user) {
        Ok(true) => Ok(()),
        Ok(false) => Err(AccessError::AccessDenied),
        Err(e) => Err(e),
    }
}

/// `j` is the first position in `ids` whose id also occurs earlier.
pub open spec fn is_first_repeat(ids: Seq<Seq<char>>, j: int) -> bool {
    &&& 0 <= j < ids.len()
    &&& exists|i: int| 0 <= i < j && ids[i] == ids[j]
    &&& forall|k: int, i: int| 0 <= i < k < j ==> ids[i] != ids[k]
}

/// The first id of `ids` that repeats an earlier one, if any.
pub open spec fn first_repeat(ids: Seq<Seq<char>>) -> Option<Seq<char>> {
    if exists|j: int| is_first_repeat(ids, j) {
        Some(ids[choose|j: int| is_first_repeat(ids, j)])
    } else {
        None
    }
}

/// `ids` names no user twice.
pub open spec fn all_distinct(ids: Seq<Seq<char>>) -> bool {
    forall|k: int, i: int| 0 <= i < k < ids.len() ==> ids[i] != ids[k]
}

proof fn lemma_first_repeat_unique(ids: Seq<Seq<char>>, j: int, m: int)
    requires
        is_first_repeat(ids, j),
        is_first_repeat(ids, m),
    ensures
        j == m,
{
    if j < m {
        let i = choose|i: int| 0 <= i < j && ids[i] == ids[j];
        assert(ids[i] != ids[j]);
    } else if m < j {
        let i = choose|i: int| 0 <= i < m && ids[i] == ids[m];
        assert(ids[i] != ids[m]);
    }
}

/// The first id of `ids` that repeats an earlier one, if any.
pub fn find_duplicate(ids: &Vec<String>) -> (r: Option<String>)
    ensures
        match r {
            Some(d) => first_repeat(ids_of(ids@)) == Some(d@),
            None => first_repeat(ids_of(ids@)) is None && all_distinct(ids_of(ids@)),
        },
{
    let ghost s = ids_of(ids@);
    let n = ids.len();
    let mut j: usize = 0;
    while j < n
        invariant
            n == ids@.len(),
            s == ids_of(ids@),
            0 <= j <= n,
            forall|k: int, i: int| 0 <= i < k < j ==> s[i] != s[k],
        decreases n - j,
    {
        let mut i: usize = 0;
        while i < j
            invariant
                n == ids@.len(),
                s == ids_of(ids@),
                0 <= i <= j < n,
                forall|k: int, m: int| 0 <= m < k < j ==> s[m] != s[k],
                forall|m: int| 0 <= m < i ==> s[m] != s[j as int],
            decreases j - i,
        {
            if same_id(&ids[i], ids[j].as_str()) {
                proof {
                    assert(s[i as int] == ids@[i as int]@);
                    assert(s[j as int] == ids@[j as int]@);
                    assert(s[i as int] == s[j as int]);
                    assert(is_first_repeat(s, j as int));
                    assert forall|m: int| is_first_repeat(s, m) implies m == j as int by {
                        lemma_first_repeat_unique(s, m, j as int);
                    }
                }
                return Some(ids[j].clone());
            }
            i = i + 1;
        }
        j = j + 1;
    }
    assert(!exists|m: int| is_first_repeat(s, m)) by {
        if exists|m: int| is_first_repeat(s, m) {
            let m = choose|m: int| is_first_repeat(s, m);
            let i = choose|i: int| 0 <= i < m && s[i] == s[m];
            assert(s[i] != s[m]);
        }
    }
    None
}

/// The first id of `ids` whose entry in `known` is false, if any.
pub open spec fn first_unknown(ids: Seq<Seq<char>>, known: Seq<bool>) -> Option<Seq<char>>
    decreases ids.len(),
{
    if ids.len() == 0 || known.len() == 0 {
        None
    } else if !known[0] {
        Some(ids[0])
    } else {
        first_unknown(ids.drop_first(), known.drop_first())
    }
}

/// The outcome of replacing the allow-list of `f` by `ids` on behalf of
/// `actor`, where `known[i]` tells whether user `ids[i]` exists.
pub open spec fn share_verdict(f: File, actor: Seq<char>, ids: Seq<Seq<char>>, known: Seq<bool>) -> Result<(), ShareFailure> {
    if f.owner_id@ != actor {
        Err(ShareFailure::NotOwner)
    } else {
        match first_repeat(ids) {
            Some(d) => Err(ShareFailure::DuplicateEntry(d)),
            None => match first_unknown(ids, known) {
                Some(u) => Err(ShareFailure::UnknownUser(u)),
                None => if ids.contains(f.owner_id@) {
                    Err(ShareFailure::OwnerListed)
                } else {
                    Ok(())
                },
            },
        }
    }
}

/// The first id in `ids` that `known` marks as missing.
pub fn find_unknown(ids: &Vec<String>, known: &Vec<bool>) -> (r: Option<String>)
    requires
        known@.len() == ids@.len(),
    ensures
        match r {
            Some(u) => first_unknown(ids_of(ids@), known@) == Some(u@),
            None => first_unknown(ids_of(ids@), known@) is None,
        },
{
    let ghost s = ids_of(ids@);
    let n = ids.len();
    let mut i: usize = 0;
    assert(s.subrange(0, n as int) == s);
    assert(known@.subrange(0, n as int) == known@);
    while i < n
        invariant
            n == ids@.len(),
            n == known@.len(),
            s == ids_of(ids@),
            0 <= i <= n,
            first_unknown(s, known@) == first_unknown(s.subrange(i as int, n as int), known@.subrange(i as int, n as int)),
        decreases n - i,
    {
        assert(s.subrange(i as int, n as int).drop_first() == s.subrange(i + 1, n as int));
        assert(known@.subrange(i as int, n as int).drop_first() == known@.subrange(i + 1, n as int));
        if !known[i] {
            return Some(ids[i].clone());
        }
        i = i + 1;
    }
    None
}

impl File {
    /// The allow-list names no user twice and never the owner.
    pub open spec fn wf(self) -> bool {
        &&& all_distinct(ids_of(self.accessible_user_ids@))
        &&& !ids_of(self.accessible_user_ids@).contains(self.owner_id@)
    }

    /// A new file owned by `owner_id`, with an empty allow-list.
    pub fn new(id: String, filename: String, owner_id: String, now_ms: i64) -> (r: File)
        ensures
            r.id == id,
            r.filename == filename,
            r.owner_id == owner_id,
            r.accessible_user_ids@.len() == 0,
            r.created_at == now_ms,
            r.wf(),
    {
        File { id, filename, owner_id, accessible_user_ids: Vec::new(), created_at: now_ms }
    }

    /// Whether `user` owns this file.
    pub fn is_owner(&self, user: &str) -> (r: bool)
        ensures
            r == (self.owner_id@ == user@),
    {
        same_id(&self.owner_id, user)
    }

    /// Whether `user` may access this file.
    pub fn can_access(&self, user: &str) -> (r: bool)
        ensures
            r == may_access(*self, user@),
    {
        self.is_owner(user) || contains_id(&self.accessible_user_ids, user)
    }

    /// Replaces the allow-list by `ids` on behalf of `actor`, where
    /// `known[i]` tells whether user `ids[i]` exists. Refused unless the
    /// actor owns the file, no id repeats, every user exists and the owner
    /// is not named; a refused call leaves the file unchanged.
    pub fn replace_allow_list(&mut self, actor: &str, ids: Vec<String>, known: &Vec<bool>) -> (r: Result<(), ShareError>)
        requires
            known@.len() == ids@.len(),
        ensures
            match r {
                Ok(_) => share_verdict(*old(self), actor@, ids_of(ids@), known@) is Ok,
                Err(e) => share_verdict(*old(self), actor@, ids_of(ids@), known@) == Err::<
                    (),
                    ShareFailure,
                >(e@),
            },
            r is Err ==> *final(self) == *old(self),
            r is Ok ==> final(self).wf(),
            r is Ok ==> final(self).accessible_user_ids@ == ids@ && final(self).id == old(self).id
                && final(self).filename == old(self).filename && final(self).owner_id == old(
                self,
            ).owner_id && final(self).created_at == old(self).created_at,
    {
        if !self.is_owner(actor) {
            return Err(ShareError::NotOwner);
        }
        match find_duplicate(&ids) {
            Some(d) => {
                return Err(ShareError::DuplicateEntry(d));
            },
            None => {},
        }
        match find_unknown(&ids, known) {
            Some(u) => {
                return Err(ShareError::UnknownUser(u));
            },
            None => {},
        }
        if contains_id(&ids, self.owner_id.as_str()) {
            return Err(ShareError::OwnerListed);
        }
        self.accessible_user_ids = ids;
        Ok(())
    }
}

/// Grants `user` access to the file the lookup found (`NotFound` when it
/// found none); the updated file is returned for storing. The owner needs
/// no entry, so granting the owner changes nothing.
pub fn add_user_to_file(file: Option<File>, user: &str) -> (r: Result<File, AccessError>)
    ensures
        match file {
            Some(f) => r matches Ok(g) && ids_of(g.accessible_user_ids@) == (if f.owner_id@
                == user@ {
                ids_of(f.accessible_user_ids@)
            } else {
                granted(ids_of(f.accessible_user_ids@), user@)
            }) && g.id == f.id && g.filename == f.filename && g.owner_id == f.owner_id
                && g.created_at == f.created_at && (f.wf() ==> g.wf()),
            None => r == Err::<File, AccessError>(AccessError::NotFound),
        },
{
    match file {
        Some(mut f) => {
            if !f.is_owner(user) {
                let ghost before = ids_of(f.accessible_user_ids@);
                grant(&mut f.accessible_user_ids, user);
                proof {
                    lemma_allow_list_idempotent(before, user@);
                    lemma_granted_members(before, user@);
                }
            }
            Ok(f)
        },
        None => Err(AccessError::NotFound),
    }
}

/// Revokes the access of `user` to the file the lookup found (`NotFound`
/// when it found none); the updated file is returned for storing.
pub fn remove_user_from_file(file: Option<File>, user: &str) -> (r: Result<File, AccessError>)
    ensures
        match file {
            Some(f) => r matches Ok(g) && ids_of(g.accessible_user_ids@) == revoked(
                ids_of(f.accessible_user_ids@),
                user@,
            ) && g.id == f.id && g.filename == f.filename && g.owner_id == f.owner_id
                && g.created_at == f.created_at && (f.wf() ==> g.wf()),
            None => r == Err::<File, AccessError>(AccessError::NotFound),
        },
{
    match file {
        Some(mut f) => {
            let ghost before = ids_of(f.accessible_user_ids@);
            revoke(&mut f.accessible_user_ids, user);
            proof {
                lemma_revoked_members(before, user@);
            }
            Ok(f)
        },
        None => Err(AccessError::NotFound),
    }
}

impl FileUploadRequest {
    /// The name a new file gets: the requested one, else its id.
    pub fn resolved_filename(&self, file_id: &str) -> (r: String)
        ensures
            match self.filename {
                Some(n) => r@ == n@,
                None => r@ == file_id@,
            },
    {
        match &self.filename {
            Some(n) => n.clone(),
            None => String::from_str(file_id),
        }
    }
}

/// The files of `files` that `user` may access, in order.
pub open spec fn visible_files(files: Seq<File>, user: Seq<char>) -> Seq<File>
    decreases files.len(),
{
    if files.len() == 0 {
        files
    } else if may_access(files[0], user) {
        seq![files[0]] + visible_files(files.drop_first(), user)
    } else {
        visible_files(files.drop_first(), user)
    }
}

/// Every file of `files` that `user` owns or has been granted, in order.
pub fn list_user_files(files: Vec<File>, user: &str) -> (r: Vec<File>)
    ensures
        r@ == visible_files(files@, user@),
{
    let mut rest = files;
    let mut out: Vec<File> = Vec::new();
    let ghost all = rest@;
    while rest.len() > 0
        invariant
            out@ + visible_files(rest@, user@) == visible_files(all, user@),
        decreases rest@.len(),
    {
        let ghost before = rest@;
        let f = rest.remove(0);
        assert(rest@ == before.drop_first());
        assert(f == before[0]);
        if f.can_access(user) {
            out.push(f);
        }
    }
    assert(visible_files(rest@, user@) == Seq::<File>::empty());
    assert(out@ == out@ + Seq::<File>::empty());
    out
}

} // verus!
