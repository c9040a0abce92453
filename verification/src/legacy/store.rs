//! Box storage for the single-service API, an in-memory store, and the
//! guardian's view of a box.
use vstd::prelude::*;
use crate::keyed::{
    any_satisfies, first_satisfying, index_of_key, keyed_map, lemma_first_satisfying, lemma_keyed_absent,
    lemma_keyed_at, lemma_keyed_push, lemma_keyed_remove, lemma_keyed_update, unique_keys,
};
use crate::legacy::error::AppError;
use crate::legacy::models::{BoxRecord, BoxView, Guardian, GuardianBox};
use crate::shared::ids::new_uuid;
use crate::shared::models::{now_str, unlock_view};
use crate::text::{concat, eq_str, owned};
use vstd::pervasive::arbitrary;

verus! {

/// Storage of boxes, keyed by box id.
pub trait BoxStore {
    /// The boxes held, by id; each store states what it holds.
    spec fn boxes(&self) -> Map<Seq<char>, BoxView>;

    /// The store's internal consistency.
    open spec fn inv(&self) -> bool {
        true
    }

    /// The store fails only for the reasons its contract names; a store
    /// that may fail for other reasons (a remote database) is not.
    open spec fn reliable(&self) -> bool {
        false
    }

    /// Stores a new box; a box whose id is taken is refused.
    fn create_box(&mut self, box_record: BoxRecord) -> (r: Result<BoxRecord, AppError>)
        requires
            old(self).inv(),
        ensures
            final(self).inv(),
            final(self).reliable() == old(self).reliable(),
            old(self).reliable() && !old(self).boxes().contains_key(box_record.id@) ==> r is Ok,
            match r {
                Ok(b) => {
                    &&& b@ == box_record@
                    &&& !old(self).boxes().contains_key(box_record.id@)
                    &&& final(self).boxes() == old(self).boxes().insert(
                        box_record.id@,
                        box_record@,
                    )
                },
                Err(_) => final(self).boxes() == old(self).boxes(),
            },
    ;

    /// The box with the given id.
    fn get_box(&self, id: &str) -> (r: Result<BoxRecord, AppError>)
        requires
            self.inv(),
        ensures
            r matches Ok(b) ==> self.boxes().contains_key(id@) && b@ == self.boxes()[id@] && b.id@
                == id@,
            !self.boxes().contains_key(id@) ==> r matches Err(AppError::NotFound(_)),
            self.reliable() && self.boxes().contains_key(id@) ==> r is Ok,
    ;

    /// The boxes a user owns.
    fn get_boxes_by_owner(&self, owner_id: &str) -> (r: Result<Vec<BoxRecord>, AppError>)
        requires
            self.inv(),
        ensures
            self.reliable() ==> r is Ok,
            r matches Ok(v) ==> forall|i: int|
                0 <= i < v@.len() ==> {
                    &&& self.boxes().contains_key(#[trigger] v@[i].id@)
                    &&& self.boxes()[v@[i].id@] == v@[i]@
                    &&& v@[i].owner_id@ == owner_id@
                },
            r matches Ok(v) ==> forall|id: Seq<char>|
                #[trigger] self.boxes().contains_key(id) && self.boxes()[id].owner_id@ == owner_id@
                    ==> exists|i: int| 0 <= i < v@.len() && v@[i].id@ == id,
            r matches Ok(v) ==> forall|a: int, b: int|
                #![trigger v@[a], v@[b]]
                0 <= a < b < v@.len() ==> v@[a].id@ != v@[b].id@,
    ;

    /// Replaces a box; a store may set its update time.
    fn update_box(&mut self, box_record: BoxRecord) -> (r: Result<BoxRecord, AppError>)
        requires
            old(self).inv(),
        ensures
            final(self).inv(),
            final(self).reliable() == old(self).reliable(),
            !old(self).boxes().contains_key(box_record.id@) ==> r matches Err(
                AppError::NotFound(_),
            ),
            old(self).reliable() && old(self).boxes().contains_key(box_record.id@) ==> r is Ok,
            match r {
                Ok(b) => {
                    &&& b@ == (BoxView { updated_at: b@.updated_at, ..box_record@ })
                    &&& old(self).boxes().contains_key(box_record.id@)
                    &&& final(self).boxes() == old(self).boxes().insert(box_record.id@, b@)
                },
                Err(_) => final(self).boxes() == old(self).boxes(),
            },
    ;

    /// Removes a box.
    fn delete_box(&mut self, id: &str) -> (r: Result<(), AppError>)
        requires
            old(self).inv(),
        ensures
            final(self).inv(),
            final(self).reliable() == old(self).reliable(),
            !old(self).boxes().contains_key(id@) ==> r matches Err(AppError::NotFound(_)),
            old(self).reliable() && old(self).boxes().contains_key(id@) ==> r is Ok,
            match r {
                Ok(_) => old(self).boxes().contains_key(id@) && final(self).boxes() == old(
                    self,
                ).boxes().remove(id@),
                Err(_) => final(self).boxes() == old(self).boxes(),
            },
    ;
}

/// Guardian `g` is `user` and has not rejected the box.
pub open spec fn is_active(user: Seq<char>) -> spec_fn(Guardian) -> bool {
    |g: Guardian| g.id@ == user && g.status@ != "rejected"@
}

/// Guardian `g` is `user`.
pub open spec fn is_user(user: Seq<char>) -> spec_fn(Guardian) -> bool {
    |g: Guardian| g.id@ == user
}

/// `gb` is the view of box `b` that guardian `user` is given.
pub open spec fn is_guardian_view(gb: GuardianBox, b: BoxView, user: Seq<char>) -> bool {
    let g = b.guardians[first_satisfying(b.guardians, is_active(user))];
    &&& gb.id == b.id
    &&& gb.name == b.name
    &&& gb.description == b.description
    &&& gb.is_locked == b.is_locked
    &&& gb.created_at == b.created_at
    &&& gb.updated_at == b.updated_at
    &&& gb.owner_id == b.owner_id
    &&& gb.owner_name == b.owner_name
    &&& gb.unlock_instructions == b.unlock_instructions
    &&& unlock_view(gb.unlock_request) == b.unlock_request
    &&& gb.pending_guardian_approval == Some(g.status@ == "pending"@)
    &&& gb.guardians_count == b.guardians.len()
    &&& gb.is_lead_guardian == any_satisfies(b.lead_guardians, is_user(user))
}

/// The position of the first guardian satisfying `is_active(user)`.
fn find_active(gs: &Vec<Guardian>, user: &str) -> (r: Option<usize>)
    ensures
        match r {
            Some(i) => any_satisfies(gs@, is_active(user@)) && i == first_satisfying(
                gs@,
                is_active(user@),
            ) && i < gs@.len(),
            None => !any_satisfies(gs@, is_active(user@)),
        },
{
    let mut i: usize = 0;
    while i < gs.len()
        invariant
            i <= gs@.len(),
            forall|j: int| 0 <= j < i ==> !(#[trigger] (is_active(user@))(gs@[j])),
        decreases gs@.len() - i,
    {
        if eq_str(&gs[i].id, user) && !eq_str(&gs[i].status, "rejected") {
            assert((is_active(user@))(gs@[i as int]));
            proof {
                let k = lemma_first_satisfying(gs@, is_active(user@));
                assert(k == i) by {
                    if k < i {
                    } else if k > i {
                    }
                }
            }
            return Some(i);
        }
        i = i + 1;
    }
    None
}

/// Whether some guardian of the list is `user`.
pub fn has_user(gs: &Vec<Guardian>, user: &str) -> (r: bool)
    ensures
        r == any_satisfies(gs@, is_user(user@)),
{
    let mut i: usize = 0;
    while i < gs.len()
        invariant
            i <= gs@.len(),
            forall|j: int| 0 <= j < i ==> !(#[trigger] (is_user(user@))(gs@[j])),
        decreases gs@.len() - i,
    {
        if eq_str(&gs[i].id, user) {
            assert((is_user(user@))(gs@[i as int]));
            return true;
        }
        i = i + 1;
    }
    false
}

/// A guardian's view of a box shows the box as it is: its id, name,
/// description, lock state, the owner's unlock instructions and its unlock
/// request.
pub proof fn lemma_guardian_view_shows_box(gb: GuardianBox, b: BoxView, user: Seq<char>)
    requires
        is_guardian_view(gb, b, user),
    ensures
        gb.id == b.id,
        gb.name == b.name,
        gb.description == b.description,
        gb.is_locked == b.is_locked,
        gb.unlock_instructions == b.unlock_instructions,
        unlock_view(gb.unlock_request) == b.unlock_request,
        gb.guardians_count == b.guardians.len(),
{
}

/// The box as guardian `user_id` sees it, if the user is one of its
/// guardians and has not rejected it.
pub fn convert_to_guardian_box(box_rec: &BoxRecord, user_id: &str) -> (r: Option<GuardianBox>)
    ensures
        r is Some <==> any_satisfies(box_rec@.guardians, is_active(user_id@)),
        r matches Some(gb) ==> is_guardian_view(gb, box_rec@, user_id@),
        r matches Some(gb) ==> {
            &&& gb.id == box_rec.id
            &&& gb.name == box_rec.name
            &&& gb.description == box_rec.description
            &&& gb.is_locked == box_rec.is_locked
            &&& gb.unlock_instructions == box_rec.unlock_instructions
            &&& unlock_view(gb.unlock_request) == box_rec@.unlock_request
        },
{
    match find_active(&box_rec.guardians, user_id) {
        Some(i) => {
            let pending = eq_str(&box_rec.guardians[i].status, "pending");
            let is_lead = has_user(&box_rec.lead_guardians, user_id);
            Some(
                GuardianBox {
                    id: box_rec.id.clone(),
                    name: box_rec.name.clone(),
                    description: box_rec.description.clone(),
                    is_locked: box_rec.is_locked,
                    created_at: box_rec.created_at.clone(),
                    updated_at: box_rec.updated_at.clone(),
                    owner_id: box_rec.owner_id.clone(),
                    owner_name: box_rec.owner_name.clone(),
                    unlock_instructions: box_rec.unlock_instructions.clone(),
                    unlock_request: match &box_rec.unlock_request {
                        Some(u) => Some(u.clone()),
                        None => None,
                    },
                    pending_guardian_approval: Some(pending),
                    guardians_count: box_rec.guardians.len(),
                    is_lead_guardian: is_lead,
                },
            )
        },
        None => None,
    }
}

/// The key of a box: its id.
pub open spec fn box_key() -> spec_fn(BoxRecord) -> Seq<char> {
    |b: BoxRecord| b.id@
}

/// The views of a map of boxes.
pub open spec fn box_views(m: Map<Seq<char>, BoxRecord>) -> Map<Seq<char>, BoxView> {
    m.map_values(|b: BoxRecord| b@)
}

proof fn lemma_box_views_insert(m: Map<Seq<char>, BoxRecord>, k: Seq<char>, b: BoxRecord)
    ensures
        box_views(m.insert(k, b)) == box_views(m).insert(k, b@),
{
    assert(box_views(m.insert(k, b)) =~= box_views(m).insert(k, b@));
}

proof fn lemma_box_views_remove(m: Map<Seq<char>, BoxRecord>, k: Seq<char>)
    ensures
        box_views(m.remove(k)) == box_views(m).remove(k),
{
    assert(box_views(m.remove(k)) =~= box_views(m).remove(k));
}

/// The boxes a sequence of insertions leaves in an empty map, a later box
/// replacing an earlier one with its id.
pub open spec fn loaded_boxes(s: Seq<BoxRecord>) -> Map<Seq<char>, BoxView>
    decreases s.len(),
{
    if s.len() == 0 {
        Map::empty()
    } else {
        loaded_boxes(s.drop_last()).insert(s.last().id@, s.last()@)
    }
}

/// The boxes of `s` that `owner` owns, in order.
pub open spec fn owned_by(s: Seq<BoxRecord>, owner: Seq<char>) -> Seq<BoxView>
    decreases s.len(),
{
    if s.len() == 0 {
        Seq::empty()
    } else if s.last().owner_id@ == owner {
        owned_by(s.drop_last(), owner).push(s.last()@)
    } else {
        owned_by(s.drop_last(), owner)
    }
}

/// Each box `owned_by` keeps is a box of `s`; when the ids in `s` are
/// distinct, so are the ids of the boxes kept.
proof fn lemma_owned_by_distinct(s: Seq<BoxRecord>, owner: Seq<char>)
    requires
        unique_keys(s, box_key()),
    ensures
        forall|k: int|
            0 <= k < owned_by(s, owner).len() ==> exists|j: int|
                0 <= j < s.len() && #[trigger] owned_by(s, owner)[k] == s[j]@,
        forall|a: int, b: int|
            #![trigger owned_by(s, owner)[a], owned_by(s, owner)[b]]
            0 <= a < b < owned_by(s, owner).len() ==> owned_by(s, owner)[a].id@ != owned_by(
                s,
                owner,
            )[b].id@,
    decreases s.len(),
{
    if s.len() > 0 {
        let t = s.drop_last();
        let last = s.len() - 1;
        assert forall|i: int, j: int|
            0 <= i < t.len() && 0 <= j < t.len() && i != j implies #[trigger] box_key()(t[i])
            != #[trigger] box_key()(t[j]) by {
            assert(t[i] == s[i] && t[j] == s[j]);
        }
        lemma_owned_by_distinct(t, owner);
        let p = owned_by(t, owner);
        let g = owned_by(s, owner);
        assert forall|k: int| 0 <= k < p.len() implies exists|j: int|
            0 <= j < last && #[trigger] p[k] == s[j]@ by {
            let j = choose|j: int| 0 <= j < t.len() && p[k] == t[j]@;
            assert(t[j] == s[j]);
        }
        assert forall|k: int| 0 <= k < g.len() implies exists|j: int|
            0 <= j < s.len() && #[trigger] g[k] == s[j]@ by {
            if k < p.len() {
                assert(g[k] == p[k]);
                let j = choose|j: int| 0 <= j < last && p[k] == s[j]@;
                assert(g[k] == s[j]@);
            } else {
                assert(g[k] == s[last]@);
            }
        }
        assert forall|a: int, b: int|
            #![trigger g[a], g[b]]
            0 <= a < b < g.len() implies g[a].id@ != g[b].id@ by {
            if b < p.len() {
                assert(g[a] == p[a] && g[b] == p[b]);
            } else {
                assert(g[a] == p[a]);
                assert(g[b] == s[last]@);
                let j = choose|j: int| 0 <= j < last && p[a] == s[j]@;
                assert(box_key()(s[j]) != box_key()(s[last]));
            }
        }
    }
}

/// Loading boxes holds exactly the ids loaded.
pub proof fn lemma_loaded_ids(s: Seq<BoxRecord>, id: Seq<char>)
    ensures
        loaded_boxes(s).contains_key(id) <==> exists|k: int|
            0 <= k < s.len() && #[trigger] s[k].id@ == id,
    decreases s.len(),
{
    if s.len() > 0 {
        let t = s.drop_last();
        lemma_loaded_ids(t, id);
        if loaded_boxes(t).contains_key(id) {
            let k = choose|k: int| 0 <= k < t.len() && #[trigger] t[k].id@ == id;
            assert(s[k] == t[k]);
        }
        if exists|k: int| 0 <= k < s.len() && #[trigger] s[k].id@ == id {
            let k = choose|k: int| 0 <= k < s.len() && #[trigger] s[k].id@ == id;
            if k < s.len() - 1 {
                assert(t[k] == s[k]);
            }
        }
    }
}

/// Of boxes loaded under one id, the last is kept.
pub proof fn lemma_loaded_keeps_last(s: Seq<BoxRecord>, j: int)
    requires
        0 <= j < s.len(),
        forall|k: int| j < k < s.len() ==> #[trigger] s[k].id@ != s[j].id@,
    ensures
        loaded_boxes(s).contains_key(s[j].id@),
        loaded_boxes(s)[s[j].id@] == s[j]@,
    decreases s.len(),
{
    if j < s.len() - 1 {
        let t = s.drop_last();
        assert(t[j] == s[j]);
        assert forall|k: int| j < k < t.len() implies #[trigger] t[k].id@ != t[j].id@ by {
            assert(t[k] == s[k]);
        }
        lemma_loaded_keeps_last(t, j);
        assert(s[s.len() - 1].id@ != s[j].id@);
    }
}

/// Every box of `s` that `owner` owns is among those `owned_by` keeps.
proof fn lemma_owned_by_complete(s: Seq<BoxRecord>, owner: Seq<char>, j: int)
    requires
        0 <= j < s.len(),
        s[j].owner_id@ == owner,
    ensures
        exists|k: int| 0 <= k < owned_by(s, owner).len() && owned_by(s, owner)[k] == s[j]@,
    decreases s.len(),
{
    if j == s.len() - 1 {
        assert(owned_by(s, owner)[owned_by(s, owner).len() - 1] == s[j]@);
    } else {
        assert(s.drop_last()[j] == s[j]);
        lemma_owned_by_complete(s.drop_last(), owner, j);
        let p = owned_by(s.drop_last(), owner);
        let k = choose|k: int| 0 <= k < p.len() && p[k] == s[j]@;
        assert(owned_by(s, owner)[k] == p[k]);
    }
}

/// An in-memory box store for tests and local runs.
pub struct MemoryBoxStore {
    records: Vec<BoxRecord>,
}

impl MemoryBoxStore {
    /// The boxes in the order they were first stored.
    pub closed spec fn records(&self) -> Seq<BoxRecord> {
        self.records@
    }

    fn empty() -> (r: Self)
        ensures
            r.inv(),
            r.boxes() == Map::<Seq<char>, BoxView>::empty(),
            r.records() == Seq::<BoxRecord>::empty(),
            r.reliable(),
    {
        let r = MemoryBoxStore { records: Vec::new() };
        assert(r.boxes() =~= Map::<Seq<char>, BoxView>::empty());
        r
    }

    /// A store holding the given boxes; of boxes sharing an id, the last is
    /// kept.
    pub fn with_data(initial_data: Vec<BoxRecord>) -> (r: Self)
        ensures
            r.inv(),
            r.boxes() == loaded_boxes(initial_data@),
            r.reliable(),
    {
        let mut store = Self::empty();
        let mut i: usize = 0;
        while i < initial_data.len()
            invariant
                i <= initial_data@.len(),
                store.inv(),
                store.boxes() == loaded_boxes(initial_data@.take(i as int)),
            decreases initial_data@.len() - i,
        {
            let b = initial_data[i].clone();
            let ghost pre = initial_data@.take(i as int);
            let ghost post = initial_data@.take(i + 1);
            assert(post.drop_last() =~= pre);
            assert(post.last() == initial_data@[i as int]);
            store.put(b);
            i = i + 1;
        }
        assert(initial_data@.take(initial_data@.len() as int) =~= initial_data@);
        store
    }

    /// The position of the box with the given id.
    fn find(&self, id: &str) -> (r: Option<usize>)
        requires
            self.inv(),
        ensures
            match r {
                Some(i) => i < self.records@.len() && self.records@[i as int].id@ == id@
                    && self.boxes().contains_key(id@) && self.boxes()[id@]
                    == self.records@[i as int]@,
                None => !self.boxes().contains_key(id@),
            },
    {
        let mut i: usize = 0;
        while i < self.records.len()
            invariant
                self.inv(),
                i <= self.records@.len(),
                forall|j: int| 0 <= j < i ==> #[trigger] self.records@[j].id@ != id@,
            decreases self.records@.len() - i,
        {
            if eq_str(&self.records[i].id, id) {
                proof {
                    lemma_keyed_at(self.records@, box_key(), i as int);
                }
                return Some(i);
            }
            i = i + 1;
        }
        proof {
            assert forall|j: int| 0 <= j < self.records@.len() implies (box_key())(
                #[trigger] self.records@[j],
            ) != id@ by {}
            lemma_keyed_absent(self.records@, box_key(), id@);
        }
        None
    }

    /// Stores a box under its id, replacing any box with that id.
    fn put(&mut self, box_record: BoxRecord)
        requires
            old(self).inv(),
        ensures
            final(self).inv(),
            final(self).boxes() == old(self).boxes().insert(box_record.id@, box_record@),
    {
        let ghost old_records = self.records@;
        proof {
            lemma_box_views_insert(keyed_map(old_records, box_key()), box_record.id@, box_record);
        }
        match self.find(box_record.id.as_str()) {
            Some(i) => {
                proof {
                    lemma_keyed_update(old_records, box_key(), i as int, box_record);
                }
                self.records.set(i, box_record);
            },
            None => {
                proof {
                    lemma_keyed_push(old_records, box_key(), box_record);
                }
                self.records.push(box_record);
            },
        }
    }
}

impl Default for MemoryBoxStore {
    /// A store with one sample box of owner "test_user", created now.
    fn default() -> (r: Self)
        ensures
            r.inv(),
            r.boxes().len() == 1,
            exists|id: Seq<char>| #[trigger] r.boxes().contains_key(id) && {
                let b = r.boxes()[id];
                &&& b.id@ == id && id.len() == 36
                &&& b.name@ == "Test Box"@
                &&& b.description@ == "An in-memory test box"@
                &&& b.created_at == b.updated_at
                &&& !b.is_locked
                &&& b.owner_id@ == "test_user"@
                &&& b.owner_name matches Some(n) && n@ == "Test User"@
                &&& b.documents.len() == 0
                &&& b.guardians.len() == 0
                &&& b.lead_guardians.len() == 0
                &&& b.unlock_instructions is None
                &&& b.unlock_request is None
            },
    {
        let now = now_str();
        let sample_box = BoxRecord {
            id: new_uuid(),
            name: owned("Test Box"),
            description: owned("An in-memory test box"),
            is_locked: false,
            created_at: now.clone(),
            updated_at: now,
            owner_id: owned("test_user"),
            owner_name: Some(owned("Test User")),
            documents: Vec::new(),
            guardians: Vec::new(),
            lead_guardians: Vec::new(),
            unlock_instructions: None,
            unlock_request: None,
        };
        let ghost sb = sample_box;
        let mut v: Vec<BoxRecord> = Vec::new();
        v.push(sample_box);
        let r = MemoryBoxStore::with_data(v);
        assert(v@.drop_last() =~= Seq::<BoxRecord>::empty());
        assert(v@.last() == sb);
        assert(loaded_boxes(v@.drop_last()) == Map::<Seq<char>, BoxView>::empty());
        assert(r.boxes() =~= Map::<Seq<char>, BoxView>::empty().insert(sb.id@, sb@));
        assert(r.boxes().dom() =~= Set::<Seq<char>>::empty().insert(sb.id@));
        assert(r.boxes().contains_key(sb.id@));
        r
    }
}

impl BoxStore for MemoryBoxStore {
    closed spec fn boxes(&self) -> Map<Seq<char>, BoxView> {
        box_views(keyed_map(self.records@, box_key()))
    }

    closed spec fn inv(&self) -> bool {
        unique_keys(self.records@, box_key())
    }

    closed spec fn reliable(&self) -> bool {
        true
    }

    /// Stores a box; an id already taken is a bad request.
    fn create_box(&mut self, box_record: BoxRecord) -> (r: Result<BoxRecord, AppError>)
        ensures
            old(self).boxes().contains_key(box_record.id@) ==> (r matches Err(
                AppError::BadRequest(m),
            ) && m@ == "Box with ID "@ + box_record.id@ + " already exists"@),
    {
        match self.find(box_record.id.as_str()) {
            Some(_) => Err(
                AppError::BadRequest(
                    crate::text::concat3("Box with ID ", box_record.id.as_str(), " already exists"),
                ),
            ),
            None => {
                let saved = box_record.clone();
                self.put(box_record);
                Ok(saved)
            },
        }
    }

    /// The box with the given id; a missing one is reported by id.
    fn get_box(&self, id: &str) -> (r: Result<BoxRecord, AppError>)
        ensures
            !self.boxes().contains_key(id@) ==> (r matches Err(AppError::NotFound(m)) && m@
                == "Box not found: "@ + id@),
    {
        match self.find(id) {
            Some(i) => Ok(self.records[i].clone()),
            None => Err(AppError::NotFound(concat("Box not found: ", id))),
        }
    }

    /// The boxes the user owns, in the order they were first stored.
    fn get_boxes_by_owner(&self, owner_id: &str) -> (r: Result<Vec<BoxRecord>, AppError>)
        ensures
            r matches Ok(v) && v@.map_values(|b: BoxRecord| b@) == owned_by(
                self.records(),
                owner_id@,
            ),
    {
        let mut out: Vec<BoxRecord> = Vec::new();
        let mut i: usize = 0;
        while i < self.records.len()
            invariant
                self.inv(),
                i <= self.records@.len(),
                out@.map_values(|b: BoxRecord| b@) == owned_by(
                    self.records@.take(i as int),
                    owner_id@,
                ),
                forall|j: int|
                    0 <= j < out@.len() ==> {
                        &&& self.boxes().contains_key(#[trigger] out@[j].id@)
                        &&& self.boxes()[out@[j].id@] == out@[j]@
                        &&& out@[j].owner_id@ == owner_id@
                    },
            decreases self.records@.len() - i,
        {
            let ghost pre = self.records@.take(i as int);
            let ghost post = self.records@.take(i + 1);
            assert(post.drop_last() =~= pre);
            if eq_str(&self.records[i].owner_id, owner_id) {
                proof {
                    lemma_keyed_at(self.records@, box_key(), i as int);
                }
                let ghost before = out@;
                out.push(self.records[i].clone());
                assert(out@.map_values(|b: BoxRecord| b@) =~= before.map_values(
                    |b: BoxRecord| b@,
                ).push(self.records@[i as int]@));
            }
            i = i + 1;
        }
        assert(self.records@.take(self.records@.len() as int) =~= self.records@);
        proof {
            assert forall|id: Seq<char>|
                #[trigger] self.boxes().contains_key(id) && self.boxes()[id].owner_id@ == owner_id@
                    implies exists|i: int| 0 <= i < out@.len() && out@[i].id@ == id by {
                let s = self.records@;
                let j = index_of_key(s, box_key(), id);
                lemma_keyed_at(s, box_key(), j);
                lemma_owned_by_complete(s, owner_id@, j);
                let ob = owned_by(s, owner_id@);
                let k = choose|k: int| 0 <= k < ob.len() && ob[k] == s[j]@;
                assert(out@.map_values(|b: BoxRecord| b@)[k] == out@[k]@);
            }
            lemma_owned_by_distinct(self.records@, owner_id@);
            let ob = owned_by(self.records@, owner_id@);
            assert forall|a: int, b: int|
                #![trigger out@[a], out@[b]]
                0 <= a < b < out@.len() implies out@[a].id@ != out@[b].id@ by {
                assert(out@.map_values(|x: BoxRecord| x@)[a] == out@[a]@);
                assert(out@.map_values(|x: BoxRecord| x@)[b] == out@[b]@);
                assert(ob[a] == out@[a]@ && ob[b] == out@[b]@);
            }
        }
        Ok(out)
    }

    /// Replaces a box, setting its update time to now; a missing one is
    /// reported by id.
    fn update_box(&mut self, box_record: BoxRecord) -> (r: Result<BoxRecord, AppError>)
        ensures
            !old(self).boxes().contains_key(box_record.id@) ==> (r matches Err(
                AppError::NotFound(m),
            ) && m@ == "Box not found: "@ + box_record.id@),
    {
        match self.find(box_record.id.as_str()) {
            None => Err(AppError::NotFound(concat("Box not found: ", box_record.id.as_str()))),
            Some(_) => {
                let updated = BoxRecord { updated_at: now_str(), ..box_record };
                let saved = updated.clone();
                self.put(updated);
                Ok(saved)
            },
        }
    }

    /// Removes a box; a missing one is reported by id.
    fn delete_box(&mut self, id: &str) -> (r: Result<(), AppError>)
        ensures
            !old(self).boxes().contains_key(id@) ==> (r matches Err(AppError::NotFound(m)) && m@
                == "Box not found: "@ + id@),
    {
        match self.find(id) {
            None => Err(AppError::NotFound(concat("Box not found: ", id))),
            Some(i) => {
                let ghost old_records = self.records@;
                proof {
                    lemma_keyed_remove(old_records, box_key(), i as int);
                    lemma_box_views_remove(keyed_map(old_records, box_key()), id@);
                }
                self.records.remove(i);
                Ok(())
            },
        }
    }
}

} // verus!
