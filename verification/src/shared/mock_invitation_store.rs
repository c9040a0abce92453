//! An in-memory invitation store: the invitations in insertion order, and a
//! map from invite code to invitation id.
use vstd::prelude::*;
use crate::keyed::{
    index_of_key, keyed_map, lemma_keyed_absent, lemma_keyed_at, lemma_keyed_push, lemma_keyed_remove,
    lemma_keyed_update, unique_keys,
};
use crate::shared::clock::now_instant;
use crate::shared::dynamo::{check_invitation_expiry, created_by};
use crate::shared::error::StoreError;
use crate::shared::models::Invitation;
use crate::shared::store::InvitationStore;
use crate::text::{concat, eq_string, owned};

verus! {

/// The message of every failure of a store made to fail.
pub const FAILURE_MESSAGE: &'static str = "Mock store failure";

/// The key of an invitation: its id.
pub open spec fn invitation_key() -> spec_fn(Invitation) -> Seq<char> {
    |i: Invitation| i.id@
}

/// One entry of the code map.
pub struct CodeEntry {
    pub code: String,
    pub id: String,
}

/// The key of a code entry: its code.
pub open spec fn code_key() -> spec_fn(CodeEntry) -> Seq<char> {
    |e: CodeEntry| e.code@
}

/// The code map of a list of code entries.
pub open spec fn code_map(s: Seq<CodeEntry>) -> Map<Seq<char>, Seq<char>> {
    keyed_map(s, code_key()).map_values(|e: CodeEntry| e.id@)
}

/// The invitations a sequence of creations leaves in an empty store.
pub open spec fn loaded_invitations(s: Seq<Invitation>) -> Map<Seq<char>, Invitation>
    decreases s.len(),
{
    if s.len() == 0 {
        Map::empty()
    } else {
        loaded_invitations(s.drop_last()).insert(s.last().id@, s.last())
    }
}

/// The code map a sequence of creations leaves in an empty store.
pub open spec fn loaded_codes(s: Seq<Invitation>) -> Map<Seq<char>, Seq<char>>
    decreases s.len(),
{
    if s.len() == 0 {
        Map::empty()
    } else {
        loaded_codes(s.drop_last()).insert(s.last().invite_code@, s.last().id@)
    }
}

/// No two invitations of `s` share an id.
pub open spec fn distinct_ids(s: Seq<Invitation>) -> bool {
    forall|i: int, j: int|
        #![trigger s[i], s[j]]
        0 <= i < s.len() && 0 <= j < s.len() && i != j ==> s[i].id@ != s[j].id@
}

/// No two invitations of `s` share an invite code.
pub open spec fn distinct_codes(s: Seq<Invitation>) -> bool {
    forall|i: int, j: int|
        #![trigger s[i], s[j]]
        0 <= i < s.len() && 0 <= j < s.len() && i != j ==> s[i].invite_code@ != s[j].invite_code@
}

/// Loading invitations holds exactly the ids loaded.
pub proof fn lemma_loaded_ids(s: Seq<Invitation>, id: Seq<char>)
    ensures
        loaded_invitations(s).contains_key(id) <==> exists|k: int|
            0 <= k < s.len() && #[trigger] s[k].id@ == id,
    decreases s.len(),
{
    if s.len() > 0 {
        let t = s.drop_last();
        lemma_loaded_ids(t, id);
        if loaded_invitations(t).contains_key(id) {
            let k = choose|k: int| 0 <= k < t.len() && #[trigger] t[k].id@ == id;
            assert(s[k] == t[k]);
        }
        if exists|k: int| 0 <= k < s.len() && #[trigger] s[k].id@ == id {
            let k = choose|k: int| 0 <= k < s.len() && #[trigger] s[k].id@ == id;
            if k < s.len() - 1 {
                assert(t[k] == s[k]);
            }
        }
    }
}

/// Loading invitations with distinct ids and distinct codes: each is held
/// under its id, and its code leads to that id.
pub proof fn lemma_loaded_read_back(s: Seq<Invitation>, k: int)
    requires
        distinct_ids(s),
        distinct_codes(s),
        0 <= k < s.len(),
    ensures
        loaded_invitations(s).contains_key(s[k].id@),
        loaded_invitations(s)[s[k].id@] == s[k],
        loaded_codes(s).contains_key(s[k].invite_code@),
        loaded_codes(s)[s[k].invite_code@] == s[k].id@,
    decreases s.len(),
{
    let last = s.len() - 1;
    if k < last {
        let t = s.drop_last();
        assert(t[k] == s[k]);
        assert forall|i: int, j: int|
            #![trigger t[i], t[j]]
            0 <= i < t.len() && 0 <= j < t.len() && i != j implies t[i].id@ != t[j].id@
            && t[i].invite_code@ != t[j].invite_code@ by {
            assert(t[i] == s[i] && t[j] == s[j]);
        }
        lemma_loaded_read_back(t, k);
        assert(s[k].id@ != s[last].id@);
        assert(s[k].invite_code@ != s[last].invite_code@);
    }
}

/// The invitations of `s` for box `box_id`, in order.
pub open spec fn for_box(s: Seq<Invitation>, box_id: Seq<char>) -> Seq<Invitation>
    decreases s.len(),
{
    if s.len() == 0 {
        s
    } else if s.last().box_id@ == box_id {
        for_box(s.drop_last(), box_id).push(s.last())
    } else {
        for_box(s.drop_last(), box_id)
    }
}

/// A mock implementation of `InvitationStore` for testing. It can be made
/// to check expiry on reads, or to fail every operation.
pub struct MockInvitationStore {
    invitations: Vec<Invitation>,
    codes: Vec<CodeEntry>,
    check_expiry: bool,
    failing: bool,
}

impl MockInvitationStore {
    /// The invitations in the order they were first stored.
    pub closed spec fn records(&self) -> Seq<Invitation> {
        self.invitations@
    }

    /// The invitation id each invite code leads to.
    pub closed spec fn codes(&self) -> Map<Seq<char>, Seq<char>> {
        code_map(self.codes@)
    }

    /// Reads check the expiry of the invitation read.
    pub closed spec fn checks_expiry(&self) -> bool {
        self.check_expiry
    }

    /// Every operation fails.
    pub closed spec fn fails(&self) -> bool {
        self.failing
    }

    /// A store loaded with invitations of distinct ids and codes, whose
    /// reads do not check expiry, gives each back: by its id, and by its
    /// code, which the store finds.
    pub proof fn lemma_loaded_reads(&self, invs: Seq<Invitation>, k: int)
        requires
            self.invitations() == loaded_invitations(invs),
            self.codes() == loaded_codes(invs),
            !self.checks_expiry(),
            distinct_ids(invs),
            distinct_codes(invs),
            0 <= k < invs.len(),
        ensures
            self.invitations().contains_key(invs[k].id@),
            self.invitations()[invs[k].id@] == invs[k],
            self.codes()[invs[k].invite_code@] == invs[k].id@,
            self.finds_code(invs[k].invite_code@),
    {
        lemma_loaded_read_back(invs, k);
    }

    /// An update that gives an invitation a new code moves the code index
    /// with it: the new code leads to the updated invitation, which the
    /// store then finds when reads do not check expiry, and the old code
    /// leads nowhere, so a lookup of it is refused as not found.
    pub proof fn lemma_update_moves_code(&self, after: MockInvitationStore, inv: Invitation)
        requires
            self.invitations().contains_key(inv.id@),
            self.invitations()[inv.id@].invite_code@ != inv.invite_code@,
            after.invitations() == self.invitations().insert(inv.id@, inv),
            after.codes() == self.codes().remove(
                self.invitations()[inv.id@].invite_code@,
            ).insert(inv.invite_code@, inv.id@),
            after.checks_expiry() == self.checks_expiry(),
        ensures
            after.codes()[inv.invite_code@] == inv.id@,
            after.invitations()[inv.id@] == inv,
            !self.checks_expiry() ==> after.finds_code(inv.invite_code@),
            !after.codes().contains_key(self.invitations()[inv.id@].invite_code@),
    {
    }

    /// What it takes for a lookup by code to reach its invitation: reads do
    /// not check expiry, and the code leads, through the code index, to a
    /// held invitation with that code.
    pub proof fn lemma_finds_code(&self, code: Seq<char>)
        ensures
            self.finds_code(code) <==> {
                &&& !self.checks_expiry()
                &&& self.codes().contains_key(code)
                &&& self.invitations().contains_key(self.codes()[code])
                &&& self.invitations()[self.codes()[code]].invite_code@ == code
            },
    {
    }

    fn empty(check_expiry: bool, failing: bool) -> (r: Self)
        ensures
            r.inv(),
            r.invitations() == Map::<Seq<char>, Invitation>::empty(),
            r.codes() == Map::<Seq<char>, Seq<char>>::empty(),
            r.records() == Seq::<Invitation>::empty(),
            r.checks_expiry() == check_expiry,
            r.fails() == failing,
    {
        let r = MockInvitationStore {
            invitations: Vec::new(),
            codes: Vec::new(),
            check_expiry,
            failing,
        };
        assert(r.invitations() =~= Map::<Seq<char>, Invitation>::empty());
        assert(r.codes() =~= Map::<Seq<char>, Seq<char>>::empty());
        r
    }

    /// An empty store.
    pub fn new() -> (r: Self)
        ensures
            r.inv(),
            r.invitations() == Map::<Seq<char>, Invitation>::empty(),
            r.codes() == Map::<Seq<char>, Seq<char>>::empty(),
            r.records() == Seq::<Invitation>::empty(),
            !r.checks_expiry(),
            !r.fails(),
            r.reliable(),
    {
        Self::empty(false, false)
    }

    /// An empty store whose reads report expired invitations as expired.
    pub fn new_with_expiry() -> (r: Self)
        ensures
            r.inv(),
            r.invitations() == Map::<Seq<char>, Invitation>::empty(),
            r.codes() == Map::<Seq<char>, Seq<char>>::empty(),
            r.checks_expiry(),
            !r.fails(),
            r.reliable(),
    {
        Self::empty(true, false)
    }

    /// A store every operation of which fails with an internal error.
    pub fn new_error() -> (r: Self)
        ensures
            r.inv(),
            r.invitations() == Map::<Seq<char>, Invitation>::empty(),
            r.fails(),
            !r.reliable(),
    {
        Self::empty(false, true)
    }

    /// A store holding the given invitations, stored one after another.
    pub fn with_data(invitations: Vec<Invitation>) -> (r: Self)
        ensures
            r.inv(),
            r.invitations() == loaded_invitations(invitations@),
            r.codes() == loaded_codes(invitations@),
            distinct_ids(invitations@) ==> r.records() == invitations@,
            !r.checks_expiry(),
            !r.fails(),
            r.reliable(),
    {
        let mut store = Self::new();
        let mut i: usize = 0;
        while i < invitations.len()
            invariant
                i <= invitations@.len(),
                store.inv(),
                !store.checks_expiry(),
                !store.fails(),
                store.invitations() == loaded_invitations(invitations@.take(i as int)),
                store.codes() == loaded_codes(invitations@.take(i as int)),
                distinct_ids(invitations@) ==> store.records() == invitations@.take(i as int),
            decreases invitations@.len() - i,
        {
            let ghost pre = invitations@.take(i as int);
            let ghost post = invitations@.take(i + 1);
            assert(post.drop_last() =~= pre);
            proof {
                if distinct_ids(invitations@) {
                    lemma_loaded_ids(pre, invitations@[i as int].id@);
                    if loaded_invitations(pre).contains_key(invitations@[i as int].id@) {
                        let k = choose|k: int|
                            0 <= k < pre.len() && #[trigger] pre[k].id@ == invitations@[i as int].id@;
                        assert(pre[k] == invitations@[k]);
                    }
                }
            }
            let inv = invitations[i].clone();
            let code = inv.invite_code.clone();
            let id = inv.id.clone();
            store.put_invitation(inv);
            store.put_code(code, id);
            proof {
                if distinct_ids(invitations@) {
                    assert(store.records() =~= post);
                }
            }
            i = i + 1;
        }
        assert(invitations@.take(invitations@.len() as int) =~= invitations@);
        store
    }

    fn failure() -> (e: StoreError)
        ensures
            e matches StoreError::InternalError(m) && m@ == FAILURE_MESSAGE@,
    {
        StoreError::InternalError(owned(FAILURE_MESSAGE))
    }

    /// The position of the invitation with the given id.
    fn find(&self, id: &String) -> (r: Option<usize>)
        requires
            self.inv(),
        ensures
            match r {
                Some(i) => i < self.invitations@.len() && self.invitations@[i as int].id@ == id@
                    && self.invitations().contains_key(id@) && self.invitations()[id@]
                    == self.invitations@[i as int],
                None => !self.invitations().contains_key(id@),
            },
    {
        let mut i: usize = 0;
        while i < self.invitations.len()
            invariant
                self.inv(),
                i <= self.invitations@.len(),
                forall|j: int| 0 <= j < i ==> #[trigger] self.invitations@[j].id@ != id@,
            decreases self.invitations@.len() - i,
        {
            if eq_string(&self.invitations[i].id, id) {
                proof {
                    lemma_keyed_at(self.invitations@, invitation_key(), i as int);
                }
                return Some(i);
            }
            i = i + 1;
        }
        proof {
            assert forall|j: int| 0 <= j < self.invitations@.len() implies (invitation_key())(
                #[trigger] self.invitations@[j],
            ) != id@ by {}
            lemma_keyed_absent(self.invitations@, invitation_key(), id@);
        }
        None
    }

    /// The position of the entry for the given code.
    fn find_code(&self, code: &String) -> (r: Option<usize>)
        requires
            self.inv(),
        ensures
            match r {
                Some(i) => i < self.codes@.len() && self.codes@[i as int].code@ == code@
                    && self.codes().contains_key(code@) && self.codes()[code@]
                    == self.codes@[i as int].id@,
                None => !self.codes().contains_key(code@),
            },
    {
        let mut i: usize = 0;
        while i < self.codes.len()
            invariant
                self.inv(),
                i <= self.codes@.len(),
                forall|j: int| 0 <= j < i ==> #[trigger] self.codes@[j].code@ != code@,
            decreases self.codes@.len() - i,
        {
            if eq_string(&self.codes[i].code, code) {
                proof {
                    lemma_keyed_at(self.codes@, code_key(), i as int);
                }
                return Some(i);
            }
            i = i + 1;
        }
        proof {
            assert forall|j: int| 0 <= j < self.codes@.len() implies (code_key())(
                #[trigger] self.codes@[j],
            ) != code@ by {}
            lemma_keyed_absent(self.codes@, code_key(), code@);
        }
        None
    }

    /// Stores an invitation under its id, replacing any with that id.
    fn put_invitation(&mut self, invitation: Invitation)
        requires
            old(self).inv(),
        ensures
            final(self).inv(),
            final(self).invitations() == old(self).invitations().insert(
                invitation.id@,
                invitation,
            ),
            final(self).codes() == old(self).codes(),
            final(self).check_expiry == old(self).check_expiry,
            final(self).failing == old(self).failing,
            !old(self).invitations().contains_key(invitation.id@) ==> final(self).invitations@
                == old(self).invitations@.push(invitation),
    {
        let id = invitation.id.clone();
        let ghost old_records = self.invitations@;
        match self.find(&id) {
            Some(i) => {
                proof {
                    lemma_keyed_update(old_records, invitation_key(), i as int, invitation);
                }
                self.invitations.set(i, invitation);
            },
            None => {
                proof {
                    lemma_keyed_push(old_records, invitation_key(), invitation);
                }
                self.invitations.push(invitation);
            },
        }
    }

    /// Maps a code to an invitation id, replacing any mapping of that code.
    fn put_code(&mut self, code: String, id: String)
        requires
            old(self).inv(),
        ensures
            final(self).inv(),
            final(self).codes() == old(self).codes().insert(code@, id@),
            final(self).invitations() == old(self).invitations(),
            final(self).invitations@ == old(self).invitations@,
            final(self).check_expiry == old(self).check_expiry,
            final(self).failing == old(self).failing,
    {
        let ghost old_codes = self.codes@;
        let ghost c = code@;
        let ghost d = id@;
        match self.find_code(&code) {
            Some(i) => {
                let entry = CodeEntry { code, id };
                proof {
                    lemma_keyed_update(old_codes, code_key(), i as int, entry);
                    assert(code_map(old_codes.update(i as int, entry)) =~= code_map(
                        old_codes,
                    ).insert(c, d));
                }
                self.codes.set(i, entry);
            },
            None => {
                let entry = CodeEntry { code, id };
                proof {
                    lemma_keyed_push(old_codes, code_key(), entry);
                    assert(code_map(old_codes.push(entry)) =~= code_map(old_codes).insert(c, d));
                }
                self.codes.push(entry);
            },
        }
    }

    /// Removes the mapping of a code, if there is one.
    fn remove_code(&mut self, code: &String)
        requires
            old(self).inv(),
        ensures
            final(self).inv(),
            final(self).codes() == old(self).codes().remove(code@),
            final(self).invitations() == old(self).invitations(),
            final(self).invitations@ == old(self).invitations@,
            final(self).check_expiry == old(self).check_expiry,
            final(self).failing == old(self).failing,
    {
        let ghost old_codes = self.codes@;
        match self.find_code(code) {
            Some(i) => {
                proof {
                    lemma_keyed_remove(old_codes, code_key(), i as int);
                    assert(code_map(old_codes.remove(i as int)) =~= code_map(old_codes).remove(
                        code@,
                    ));
                }
                self.codes.remove(i);
            },
            None => {
                assert(code_map(old_codes) =~= code_map(old_codes).remove(code@));
            },
        }
    }

    /// The invitations whose `select` is true, in storage order.
    fn select_for_box(&self, box_id: &str) -> (r: Vec<Invitation>)
        ensures
            r@ == for_box(self.invitations@, box_id@),
    {
        let mut out: Vec<Invitation> = Vec::new();
        let mut i: usize = 0;
        let key = owned(box_id);
        while i < self.invitations.len()
            invariant
                i <= self.invitations@.len(),
                key@ == box_id@,
                out@ == for_box(self.invitations@.take(i as int), box_id@),
            decreases self.invitations@.len() - i,
        {
            assert(self.invitations@.take(i + 1).drop_last() =~= self.invitations@.take(i as int));
            if eq_string(&self.invitations[i].box_id, &key) {
                out.push(self.invitations[i].clone());
            }
            i = i + 1;
        }
        assert(self.invitations@.take(self.invitations@.len() as int) =~= self.invitations@);
        out
    }
}

/// Every invitation of `for_box(s, b)` is in `s` and is for box `b`.
proof fn lemma_for_box(s: Seq<Invitation>, b: Seq<char>)
    ensures
        forall|i: int|
            0 <= i < for_box(s, b).len() ==> (#[trigger] for_box(s, b)[i]).box_id@ == b && s.contains(
                for_box(s, b)[i],
            ),
    decreases s.len(),
{
    if s.len() > 0 {
        lemma_for_box(s.drop_last(), b);
        assert forall|i: int| 0 <= i < for_box(s, b).len() implies (#[trigger] for_box(s, b)[i]).box_id@
            == b && s.contains(for_box(s, b)[i]) by {
            let p = for_box(s.drop_last(), b);
            if i < p.len() {
                assert(p[i] == for_box(s, b)[i]);
                let k = choose|k: int| 0 <= k < s.drop_last().len() && s.drop_last()[k] == p[i];
                assert(s[k] == p[i]);
            } else {
                assert(s[s.len() - 1] == s.last());
            }
        }
    }
}

/// Every invitation of `created_by(s, c)` is in `s` and was created by `c`.
proof fn lemma_created_by(s: Seq<Invitation>, c: Seq<char>)
    ensures
        forall|i: int|
            0 <= i < created_by(s, c).len() ==> (#[trigger] created_by(s, c)[i]).creator_id@ == c
                && s.contains(created_by(s, c)[i]),
    decreases s.len(),
{
    if s.len() > 0 {
        lemma_created_by(s.drop_last(), c);
        assert forall|i: int| 0 <= i < created_by(s, c).len() implies (#[trigger] created_by(
            s,
            c,
        )[i]).creator_id@ == c && s.contains(created_by(s, c)[i]) by {
            let p = created_by(s.drop_last(), c);
            if i < p.len() {
                assert(p[i] == created_by(s, c)[i]);
                let k = choose|k: int| 0 <= k < s.drop_last().len() && s.drop_last()[k] == p[i];
                assert(s[k] == p[i]);
            } else {
                assert(s[s.len() - 1] == s.last());
            }
        }
    }
}

/// Every invitation of `s` by creator `c` is among those `created_by` keeps.
proof fn lemma_created_by_complete(s: Seq<Invitation>, c: Seq<char>, j: int)
    requires
        0 <= j < s.len(),
        s[j].creator_id@ == c,
    ensures
        exists|k: int| 0 <= k < created_by(s, c).len() && created_by(s, c)[k] == s[j],
    decreases s.len(),
{
    if j == s.len() - 1 {
        assert(created_by(s, c)[created_by(s, c).len() - 1] == s[j]);
    } else {
        lemma_created_by_complete(s.drop_last(), c, j);
        let p = created_by(s.drop_last(), c);
        let k = choose|k: int| 0 <= k < p.len() && p[k] == s.drop_last()[j];
        assert(created_by(s, c)[k] == p[k]);
    }
}

/// Every invitation stored is the map's entry for its id.
proof fn lemma_stored_is_entry(s: Seq<Invitation>, x: Invitation)
    requires
        unique_keys(s, invitation_key()),
        s.contains(x),
    ensures
        keyed_map(s, invitation_key()).contains_key(x.id@),
        keyed_map(s, invitation_key())[x.id@] == x,
{
    let k = choose|k: int| 0 <= k < s.len() && s[k] == x;
    lemma_keyed_at(s, invitation_key(), k);
}

impl InvitationStore for MockInvitationStore {
    closed spec fn invitations(&self) -> Map<Seq<char>, Invitation> {
        keyed_map(self.invitations@, invitation_key())
    }

    closed spec fn inv(&self) -> bool {
        &&& unique_keys(self.invitations@, invitation_key())
        &&& unique_keys(self.codes@, code_key())
    }

    closed spec fn reliable(&self) -> bool {
        !self.failing
    }

    /// The code leads, through the store's code index, to a held invitation
    /// with that code, and reads do not check expiry.
    closed spec fn finds_code(&self, code: Seq<char>) -> bool {
        &&& !self.check_expiry
        &&& self.codes().contains_key(code)
        &&& self.invitations().contains_key(self.codes()[code])
        &&& self.invitations()[self.codes()[code]].invite_code@ == code
    }

    /// Stores the invitation under its id and maps its code to it.
    fn create_invitation(&mut self, invitation: Invitation) -> (r: Result<Invitation, StoreError>)
        ensures
            final(self).fails() == old(self).fails(),
            final(self).checks_expiry() == old(self).checks_expiry(),
            old(self).fails() ==> (r matches Err(StoreError::InternalError(m)) && m@
                == FAILURE_MESSAGE@ && final(self).codes() == old(self).codes()),
            !old(self).fails() ==> (r == Ok::<Invitation, StoreError>(invitation)
                && final(self).codes() == old(self).codes().insert(
                invitation.invite_code@,
                invitation.id@,
            )),
    {
        if self.failing {
            return Err(Self::failure());
        }
        let copy = invitation.clone();
        let code = invitation.invite_code.clone();
        let id = invitation.id.clone();
        self.put_invitation(invitation);
        self.put_code(code, id);
        Ok(copy)
    }

    fn get_invitation(&self, id: &str) -> (r: Result<Invitation, StoreError>)
        ensures
            self.fails() ==> (r matches Err(StoreError::InternalError(m)) && m@
                == FAILURE_MESSAGE@),
            !self.fails() && !self.invitations().contains_key(id@) ==> (r matches Err(
                StoreError::NotFound(m),
            ) && m@ == "Invitation not found: "@ + id@),
            !self.fails() && self.invitations().contains_key(id@) && !self.checks_expiry() ==> r
                == Ok::<Invitation, StoreError>(self.invitations()[id@]),
    {
        if self.failing {
            return Err(Self::failure());
        }
        let key = owned(id);
        match self.find(&key) {
            None => Err(StoreError::NotFound(concat("Invitation not found: ", id))),
            Some(i) => {
                let inv = self.invitations[i].clone();
                if self.check_expiry {
                    let now = now_instant();
                    check_invitation_expiry(inv, &now)
                } else {
                    Ok(inv)
                }
            },
        }
    }

    fn get_invitation_by_code(&self, invite_code: &str) -> (r: Result<Invitation, StoreError>)
        ensures
            self.fails() ==> (r matches Err(StoreError::InternalError(m)) && m@
                == FAILURE_MESSAGE@),
            !self.fails() && !self.codes().contains_key(invite_code@) ==> (r matches Err(
                StoreError::NotFound(m),
            ) && m@ == "Invitation not found with code: "@ + invite_code@),
            !self.fails() && self.codes().contains_key(invite_code@) && !self.invitations().contains_key(
                self.codes()[invite_code@],
            ) ==> (r matches Err(StoreError::NotFound(m)) && m@ == "Invitation not found: "@
                + self.codes()[invite_code@]),
            !self.fails() && self.codes().contains_key(invite_code@) && self.invitations().contains_key(
                self.codes()[invite_code@],
            ) && self.invitations()[self.codes()[invite_code@]].invite_code@ != invite_code@
                && !self.checks_expiry() ==> (r matches Err(StoreError::NotFound(m)) && m@
                == "Invitation not found with code: "@ + invite_code@),
            !self.fails() && self.codes().contains_key(invite_code@) && self.invitations().contains_key(
                self.codes()[invite_code@],
            ) && self.invitations()[self.codes()[invite_code@]].invite_code@ == invite_code@
                && !self.checks_expiry() ==> r == Ok::<Invitation, StoreError>(
                self.invitations()[self.codes()[invite_code@]],
            ),
    {
        if self.failing {
            return Err(Self::failure());
        }
        let key = owned(invite_code);
        match self.find_code(&key) {
            None => Err(
                StoreError::NotFound(concat("Invitation not found with code: ", invite_code)),
            ),
            Some(i) => {
                let id = self.codes[i].id.clone();
                match self.get_invitation(id.as_str()) {
                    Ok(inv) => {
                        if eq_string(&inv.invite_code, &key) {
                            Ok(inv)
                        } else {
                            Err(
                                StoreError::NotFound(
                                    concat("Invitation not found with code: ", invite_code),
                                ),
                            )
                        }
                    },
                    Err(e) => Err(e),
                }
            },
        }
    }

    /// Replaces the invitation; if the stored one had another code, that
    /// code's mapping is replaced by one of the new code.
    fn update_invitation(&mut self, invitation: Invitation) -> (r: Result<Invitation, StoreError>)
        ensures
            final(self).fails() == old(self).fails(),
            final(self).checks_expiry() == old(self).checks_expiry(),
            old(self).fails() ==> (r matches Err(StoreError::InternalError(m)) && m@
                == FAILURE_MESSAGE@ && final(self).codes() == old(self).codes()),
            !old(self).fails() ==> r == Ok::<Invitation, StoreError>(invitation),
            !old(self).fails() ==> final(self).codes() == if old(self).invitations().contains_key(
                invitation.id@,
            ) && old(self).invitations()[invitation.id@].invite_code@ != invitation.invite_code@ {
                old(self).codes().remove(
                    old(self).invitations()[invitation.id@].invite_code@,
                ).insert(invitation.invite_code@, invitation.id@)
            } else {
                old(self).codes()
            },
    {
        if self.failing {
            return Err(Self::failure());
        }
        let id = invitation.id.clone();
        match self.find(&id) {
            Some(i) => {
                if !eq_string(&self.invitations[i].invite_code, &invitation.invite_code) {
                    let old_code = self.invitations[i].invite_code.clone();
                    self.remove_code(&old_code);
                    self.put_code(invitation.invite_code.clone(), id.clone());
                }
            },
            None => {},
        }
        let copy = invitation.clone();
        self.put_invitation(invitation);
        Ok(copy)
    }

    /// Removes the invitation and the mapping of its code.
    fn delete_invitation(&mut self, id: &str) -> (r: Result<(), StoreError>)
        ensures
            final(self).fails() == old(self).fails(),
            final(self).checks_expiry() == old(self).checks_expiry(),
            old(self).fails() ==> (r matches Err(StoreError::InternalError(m)) && m@
                == FAILURE_MESSAGE@),
            !old(self).fails() ==> r is Ok,
            !old(self).fails() ==> final(self).codes() == if old(self).invitations().contains_key(
                id@,
            ) {
                old(self).codes().remove(old(self).invitations()[id@].invite_code@)
            } else {
                old(self).codes()
            },
    {
        if self.failing {
            return Err(Self::failure());
        }
        let key = owned(id);
        match self.find(&key) {
            Some(i) => {
                let code = self.invitations[i].invite_code.clone();
                let ghost old_records = self.invitations@;
                proof {
                    lemma_keyed_remove(old_records, invitation_key(), i as int);
                }
                self.invitations.remove(i);
                self.remove_code(&code);
            },
            None => {
                assert(self.invitations() =~= self.invitations().remove(id@));
            },
        }
        Ok(())
    }

    /// The invitations for the box, in storage order.
    fn get_invitations_by_box_id(&self, box_id: &str) -> (r: Result<Vec<Invitation>, StoreError>)
        ensures
            self.fails() ==> (r matches Err(StoreError::InternalError(m)) && m@
                == FAILURE_MESSAGE@),
            !self.fails() ==> (r matches Ok(v) && v@ == for_box(self.records(), box_id@)),
    {
        if self.failing {
            return Err(Self::failure());
        }
        let v = self.select_for_box(box_id);
        proof {
            lemma_for_box(self.invitations@, box_id@);
            assert forall|i: int| 0 <= i < v@.len() implies self.invitations().contains_key(
                #[trigger] v@[i].id@,
            ) && self.invitations()[v@[i].id@] == v@[i] by {
                lemma_stored_is_entry(self.invitations@, v@[i]);
            }
        }
        Ok(v)
    }

    /// The invitations the user created, in storage order.
    fn get_invitations_by_creator_id(&self, creator_id: &str) -> (r: Result<
        Vec<Invitation>,
        StoreError,
    >)
        ensures
            self.fails() ==> (r matches Err(StoreError::InternalError(m)) && m@
                == FAILURE_MESSAGE@),
            !self.fails() ==> (r matches Ok(v) && v@ == created_by(self.records(), creator_id@)),
    {
        if self.failing {
            return Err(Self::failure());
        }
        let v = crate::shared::dynamo::filter_created_by(&self.invitations, creator_id);
        proof {
            lemma_created_by(self.invitations@, creator_id@);
            assert forall|i: int| 0 <= i < v@.len() implies self.invitations().contains_key(
                #[trigger] v@[i].id@,
            ) && self.invitations()[v@[i].id@] == v@[i] by {
                lemma_stored_is_entry(self.invitations@, v@[i]);
            }
            assert forall|id: Seq<char>|
                #[trigger] self.invitations().contains_key(id) && self.invitations()[id].creator_id@
                    == creator_id@ implies exists|i: int| 0 <= i < v@.len() && v@[i].id@ == id by {
                let s = self.invitations@;
                let j = index_of_key(s, invitation_key(), id);
                lemma_keyed_at(s, invitation_key(), j);
                lemma_created_by_complete(s, creator_id@, j);
                let k = choose|k: int|
                    0 <= k < created_by(s, creator_id@).len() && created_by(s, creator_id@)[k]
                        == s[j];
                assert(v@[k].id@ == id);
            }
        }
        Ok(v)
    }
}

} // verus!
