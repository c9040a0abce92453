//! What owners do with their boxes: list, read, create, change and delete
//! them, and add, replace or remove their documents and guardians.
use vstd::prelude::*;
use crate::box_service::error::AppError;
use crate::box_service::models::{
    shows_box, BoxResponse, CreateBoxRequest, DocumentUpdateResponse, GuardianUpdateResponse,
    MessageResponse, OptionalField, UpdateBoxRequest,
};
use crate::shared::error::StoreError;
use crate::shared::ids::new_uuid;
use crate::shared::models::{copy_guardians, now_str, BoxRecord, BoxView, Document, Guardian};
use crate::shared::store::{same_content, BoxStore};
use crate::text::{concat4, eq_str, owned};

verus! {

/// Some guardian of `gs` has id `id`.
pub open spec fn has_guardian_id(gs: Seq<Guardian>, id: Seq<char>) -> bool {
    exists|i: int| 0 <= i < gs.len() && #[trigger] gs[i].id@ == id
}

/// The position of the first guardian of `gs` with id `id`.
pub open spec fn guardian_position(gs: Seq<Guardian>, id: Seq<char>) -> int {
    choose|i: int|
        0 <= i < gs.len() && gs[i].id@ == id && forall|j: int|
            0 <= j < i ==> #[trigger] gs[j].id@ != id
}

/// Some document of `ds` has id `id`.
pub open spec fn has_document_id(ds: Seq<Document>, id: Seq<char>) -> bool {
    exists|i: int| 0 <= i < ds.len() && #[trigger] ds[i].id@ == id
}

/// The position of the first document of `ds` with id `id`.
pub open spec fn document_position(ds: Seq<Document>, id: Seq<char>) -> int {
    choose|i: int|
        0 <= i < ds.len() && ds[i].id@ == id && forall|j: int|
            0 <= j < i ==> #[trigger] ds[j].id@ != id
}

/// The guardians with `g` in place of the first guardian with its id, or
/// added at the end if none has it.
pub open spec fn upserted_guardians(gs: Seq<Guardian>, g: Guardian) -> Seq<Guardian> {
    if has_guardian_id(gs, g.id@) {
        gs.update(guardian_position(gs, g.id@), g)
    } else {
        gs.push(g)
    }
}

/// The documents with `d` in place of the first document with its id, or
/// added at the end if none has it.
pub open spec fn upserted_documents(ds: Seq<Document>, d: Document) -> Seq<Document> {
    if has_document_id(ds, d.id@) {
        ds.update(document_position(ds, d.id@), d)
    } else {
        ds.push(d)
    }
}

/// A box after an owner's change of its details.
pub open spec fn updated_box(b: BoxView, p: UpdateBoxRequest, now: String) -> BoxView {
    BoxView {
        name: match p.name {
            Some(n) => n,
            None => b.name,
        },
        description: match p.description {
            Some(d) => d,
            None => b.description,
        },
        unlock_instructions: match p.unlock_instructions {
            Some(OptionalField::Value(v)) => Some(v),
            Some(OptionalField::Null) => None,
            None => b.unlock_instructions,
        },
        is_locked: match p.is_locked {
            Some(l) => l,
            None => b.is_locked,
        },
        updated_at: now,
        ..b
    }
}

/// The position of the first guardian with the given id.
pub fn find_guardian(gs: &Vec<Guardian>, id: &str) -> (r: Option<usize>)
    ensures
        match r {
            Some(i) => i < gs@.len() && gs@[i as int].id@ == id@ && has_guardian_id(gs@, id@) && i
                == guardian_position(gs@, id@),
            None => !has_guardian_id(gs@, id@),
        },
{
    let mut i: usize = 0;
    while i < gs.len()
        invariant
            i <= gs@.len(),
            forall|j: int| 0 <= j < i ==> #[trigger] gs@[j].id@ != id@,
        decreases gs@.len() - i,
    {
        if eq_str(&gs[i].id, id) {
            assert(gs@[i as int].id@ == id@);
            let ghost k = guardian_position(gs@, id@);
            assert(k == i) by {
                if k < i {
                    assert(gs@[k].id@ != id@);
                } else if k > i {
                    assert(gs@[i as int].id@ != id@);
                }
            }
            return Some(i);
        }
        i = i + 1;
    }
    None
}

/// The position of the first document with the given id.
pub fn find_document(ds: &Vec<Document>, id: &str) -> (r: Option<usize>)
    ensures
        match r {
            Some(i) => i < ds@.len() && ds@[i as int].id@ == id@ && has_document_id(ds@, id@) && i
                == document_position(ds@, id@),
            None => !has_document_id(ds@, id@),
        },
{
    let mut i: usize = 0;
    while i < ds.len()
        invariant
            i <= ds@.len(),
            forall|j: int| 0 <= j < i ==> #[trigger] ds@[j].id@ != id@,
        decreases ds@.len() - i,
    {
        if eq_str(&ds[i].id, id) {
            assert(ds@[i as int].id@ == id@);
            let ghost k = document_position(ds@, id@);
            assert(k == i) by {
                if k < i {
                    assert(ds@[k].id@ != id@);
                } else if k > i {
                    assert(ds@[i as int].id@ != id@);
                }
            }
            return Some(i);
        }
        i = i + 1;
    }
    None
}

/// A new, unlocked and empty box owned by `owner_id`, created at `now`.
pub fn new_box(id: String, name: String, description: String, owner_id: String, now: String) -> (r:
    BoxRecord)
    ensures
        r.id == id,
        r.name == name,
        r.description == description,
        !r.is_locked,
        r.created_at == now,
        r.updated_at == now,
        r.owner_id == owner_id,
        r.owner_name is None,
        r.documents@.len() == 0,
        r.guardians@.len() == 0,
        r.unlock_instructions is None,
        r.unlock_request is None,
        r.version == 0,
{
    BoxRecord {
        id,
        name,
        description,
        is_locked: false,
        created_at: now.clone(),
        updated_at: now,
        owner_id,
        owner_name: None,
        documents: Vec::new(),
        guardians: Vec::new(),
        unlock_instructions: None,
        unlock_request: None,
        version: 0,
    }
}

/// The box with the owner's changes applied at `now`.
pub fn apply_box_update(box_rec: BoxRecord, payload: UpdateBoxRequest, now: String) -> (r:
    BoxRecord)
    ensures
        r@ == updated_box(box_rec@, payload, now),
        payload.name matches Some(n) ==> r.name == n,
        payload.name is None ==> r.name == box_rec.name,
        payload.description matches Some(d) ==> r.description == d,
        payload.description is None ==> r.description == box_rec.description,
        payload.unlock_instructions matches Some(OptionalField::Value(v)) ==> r.unlock_instructions
            == Some(v),
        payload.unlock_instructions matches Some(OptionalField::Null) ==> r.unlock_instructions is None,
        payload.unlock_instructions is None ==> r.unlock_instructions == box_rec.unlock_instructions,
        payload.is_locked matches Some(l) ==> r.is_locked == l,
        payload.is_locked is None ==> r.is_locked == box_rec.is_locked,
        r.updated_at == now,
        r.id == box_rec.id && r.owner_id == box_rec.owner_id && r.created_at == box_rec.created_at,
        r.documents@ == box_rec.documents@ && r.guardians@ == box_rec.guardians@,
{
    let mut b = box_rec;
    match payload.name {
        Some(name) => {
            b.name = name;
        },
        None => {},
    }
    match payload.description {
        Some(description) => {
            b.description = description;
        },
        None => {},
    }
    match payload.unlock_instructions {
        Some(OptionalField::Value(v)) => {
            b.unlock_instructions = Some(v);
        },
        Some(OptionalField::Null) => {
            b.unlock_instructions = None;
        },
        None => {},
    }
    match payload.is_locked {
        Some(l) => {
            b.is_locked = l;
        },
        None => {},
    }
    b.updated_at = now;
    b
}

/// The box with `guardian` in place of the guardian with its id, or added,
/// changed at `now`.
pub fn upsert_guardian(box_rec: BoxRecord, guardian: Guardian, now: String) -> (r: BoxRecord)
    ensures
        r@ == (BoxView {
            guardians: upserted_guardians(box_rec.guardians@, guardian),
            updated_at: now,
            ..box_rec@
        }),
{
    let mut b = box_rec;
    match find_guardian(&b.guardians, guardian.id.as_str()) {
        Some(i) => {
            b.guardians.set(i, guardian);
        },
        None => {
            b.guardians.push(guardian);
        },
    }
    b.updated_at = now;
    b
}

/// The box with `document` in place of the document with its id, or added,
/// changed at `now`.
pub fn upsert_document(box_rec: BoxRecord, document: Document, now: String) -> (r: BoxRecord)
    ensures
        r@ == (BoxView {
            documents: upserted_documents(box_rec.documents@, document),
            updated_at: now,
            ..box_rec@
        }),
        document_written(box_rec.documents@, r.documents@, document),
{
    proof {
        lemma_document_written(box_rec.documents@, document);
    }
    let mut b = box_rec;
    match find_document(&b.documents, document.id.as_str()) {
        Some(i) => {
            b.documents.set(i, document);
        },
        None => {
            b.documents.push(document);
        },
    }
    b.updated_at = now;
    b
}

/// The box without its first document with the given id, changed at `now`;
/// `None` if it has no such document.
pub fn remove_document(box_rec: BoxRecord, document_id: &str, now: String) -> (r: Option<
    BoxRecord,
>)
    ensures
        match r {
            Some(b) => has_document_id(box_rec.documents@, document_id@) && b@ == (BoxView {
                documents: box_rec.documents@.remove(
                    document_position(box_rec.documents@, document_id@),
                ),
                updated_at: now,
                ..box_rec@
            }),
            None => !has_document_id(box_rec.documents@, document_id@),
        },
{
    let mut b = box_rec;
    match find_document(&b.documents, document_id) {
        Some(i) => {
            b.documents.remove(i);
            b.updated_at = now;
            Some(b)
        },
        None => None,
    }
}

/// The box without its first guardian with the given id, changed at `now`;
/// `None` if it has no such guardian.
pub fn remove_guardian(box_rec: BoxRecord, guardian_id: &str, now: String) -> (r: Option<
    BoxRecord,
>)
    ensures
        match r {
            Some(b) => has_guardian_id(box_rec.guardians@, guardian_id@) && b@ == (BoxView {
                guardians: box_rec.guardians@.remove(
                    guardian_position(box_rec.guardians@, guardian_id@),
                ),
                updated_at: now,
                ..box_rec@
            }),
            None => !has_guardian_id(box_rec.guardians@, guardian_id@),
        },
{
    let mut b = box_rec;
    match find_guardian(&b.guardians, guardian_id) {
        Some(i) => {
            b.guardians.remove(i);
            b.updated_at = now;
            Some(b)
        },
        None => None,
    }
}

/// The box with id `id` is held and owned by `user`.
pub open spec fn owns(boxes: Map<Seq<char>, BoxView>, id: Seq<char>, user: Seq<char>) -> bool {
    boxes.contains_key(id) && boxes[id].owner_id@ == user
}

/// The refusal of a request by `user` about box `id`: not found if the box
/// is not held; unauthorized with `msg` if someone else owns it and the
/// store is reliable.
pub open spec fn refused_for(
    boxes: Map<Seq<char>, BoxView>,
    reliable: bool,
    id: Seq<char>,
    user: Seq<char>,
    msg: Seq<char>,
    r: AppError,
) -> bool {
    &&& !boxes.contains_key(id) ==> r is NotFound
    &&& reliable && boxes.contains_key(id) && boxes[id].owner_id@ != user ==> (
    r matches AppError::Unauthorized(m) && m@ == msg)
}

/// Reads a box that `owner_id` owns.
fn get_owned_box<S: BoxStore>(store: &S, box_id: &str, owner_id: &str, refusal: &str) -> (r: Result<
    BoxRecord,
    AppError,
>)
    requires
        store.inv(),
    ensures
        match r {
            Ok(b) => owns(store.boxes(), box_id@, owner_id@) && b@ == store.boxes()[box_id@]
                && b.id@ == box_id@,
            Err(e) => refused_for(store.boxes(), store.reliable(), box_id@, owner_id@, refusal@, e),
        },
        store.reliable() && owns(store.boxes(), box_id@, owner_id@) ==> r is Ok,
{
    let box_rec = match store.get_box(box_id) {
        Ok(b) => b,
        Err(e) => {
            return Err(AppError::from(e));
        },
    };
    if !eq_str(&box_rec.owner_id, owner_id) {
        return Err(AppError::unauthorized(owned(refusal)));
    }
    Ok(box_rec)
}

/// GET /boxes/owned: the boxes the user owns.
pub fn get_boxes<S: BoxStore>(store: &S, user_id: &str) -> (r: Result<Vec<BoxResponse>, AppError>)
    requires
        store.inv(),
    ensures
        store.reliable() ==> r is Ok,
        r matches Ok(v) ==> forall|i: int|
            0 <= i < v@.len() ==> store.boxes().contains_key(#[trigger] v@[i].id@) && shows_box(
                v@[i],
                store.boxes()[v@[i].id@],
            ),
        r matches Ok(v) ==> forall|id: Seq<char>|
            #[trigger] store.boxes().contains_key(id) && store.boxes()[id].owner_id@ == user_id@
                ==> exists|i: int| 0 <= i < v@.len() && v@[i].id@ == id,
{
    let boxes = match store.get_boxes_by_owner(user_id) {
        Ok(v) => v,
        Err(e) => {
            return Err(AppError::from(e));
        },
    };
    let mut out: Vec<BoxResponse> = Vec::new();
    let mut i: usize = 0;
    while i < boxes.len()
        invariant
            i <= boxes@.len(),
            forall|j: int|
                0 <= j < boxes@.len() ==> store.boxes().contains_key(#[trigger] boxes@[j].id@)
                    && store.boxes()[boxes@[j].id@] == boxes@[j]@,
            forall|j: int|
                0 <= j < out@.len() ==> store.boxes().contains_key(#[trigger] out@[j].id@)
                    && shows_box(out@[j], store.boxes()[out@[j].id@]),
            out@.len() == i,
            forall|j: int| 0 <= j < i ==> #[trigger] out@[j].id == boxes@[j].id,
        decreases boxes@.len() - i,
    {
        let b = boxes[i].clone();
        let resp = BoxResponse::from(b);
        out.push(resp);
        i = i + 1;
    }
    proof {
        assert forall|id: Seq<char>|
            #[trigger] store.boxes().contains_key(id) && store.boxes()[id].owner_id@ == user_id@
                implies exists|i: int| 0 <= i < out@.len() && out@[i].id@ == id by {
            let k = choose|k: int| 0 <= k < boxes@.len() && boxes@[k].id@ == id;
            assert(out@[k].id == boxes@[k].id);
        }
    }
    Ok(out)
}

/// GET /boxes/owned/{id}: a box the user owns.
pub fn get_box<S: BoxStore>(store: &S, id: &str, user_id: &str) -> (r: Result<BoxResponse, AppError>)
    requires
        store.inv(),
    ensures
        match r {
            Ok(resp) => owns(store.boxes(), id@, user_id@) && shows_box(resp, store.boxes()[id@]),
            Err(e) => refused_for(
                store.boxes(),
                store.reliable(),
                id@,
                user_id@,
                "You don't have permission to view this box"@,
                e,
            ),
        },
        store.reliable() && owns(store.boxes(), id@, user_id@) ==> r is Ok,
{
    let b = get_owned_box(store, id, user_id, "You don't have permission to view this box")?;
    Ok(BoxResponse::from(b))
}

/// POST /boxes/owned: creates an unlocked, empty box owned by the user, with
/// a fresh id and the current time.
pub fn create_box<S: BoxStore>(store: &mut S, user_id: &str, payload: CreateBoxRequest) -> (r:
    Result<BoxResponse, AppError>)
    requires
        old(store).inv(),
    ensures
        final(store).inv(),
        old(store).reliable() ==> r is Ok,
        match r {
            Ok(resp) => {
                &&& resp.name == payload.name
                &&& resp.description == payload.description
                &&& resp.owner_id@ == user_id@
                &&& !resp.is_locked
                &&& resp.created_at == resp.updated_at
                &&& resp.documents@.len() == 0 && resp.guardians@.len() == 0
                &&& resp.unlock_instructions is None && resp.unlock_request is None
                &&& resp.owner_name is None
                &&& final(store).boxes().contains_key(resp.id@)
                &&& shows_box(resp, final(store).boxes()[resp.id@])
                &&& final(store).boxes()[resp.id@].version == 0
                &&& final(store).boxes() == old(store).boxes().insert(
                    resp.id@,
                    final(store).boxes()[resp.id@],
                )
            },
            Err(_) => final(store).boxes() == old(store).boxes(),
        },
{
    let now = now_str();
    let new_box = new_box(new_uuid(), payload.name, payload.description, owned(user_id), now);
    let created = match store.create_box(new_box) {
        Ok(b) => b,
        Err(e) => {
            return Err(AppError::from(e));
        },
    };
    Ok(BoxResponse::from(created))
}

/// PATCH /boxes/owned/{id}: changes the details of a box the user owns; a
/// box that is not there is refused as unauthorized, as one owned by
/// someone else is.
pub fn update_box<S: BoxStore>(
    store: &mut S,
    id: &str,
    user_id: &str,
    payload: UpdateBoxRequest,
) -> (r: Result<BoxResponse, AppError>)
    requires
        old(store).inv(),
    ensures
        final(store).inv(),
        old(store).reliable() && owns(old(store).boxes(), id@, user_id@) ==> r is Ok,
        match r {
            Ok(resp) => {
                &&& owns(old(store).boxes(), id@, user_id@)
                &&& final(store).boxes().contains_key(id@)
                &&& final(store).boxes() == old(store).boxes().insert(id@, final(store).boxes()[id@])
                &&& same_content(
                    final(store).boxes()[id@],
                    updated_box(old(store).boxes()[id@], payload, final(store).boxes()[id@].updated_at),
                )
                &&& shows_box(resp, final(store).boxes()[id@])
            },
            Err(e) => {
                &&& final(store).boxes() == old(store).boxes()
                &&& !old(store).boxes().contains_key(id@) ==> (e matches AppError::Unauthorized(m)
                    && m@ == "You don't have permission to update this box"@)
                &&& old(store).reliable() && old(store).boxes().contains_key(id@) && old(
                    store,
                ).boxes()[id@].owner_id@ != user_id@ ==> (e matches AppError::Unauthorized(m)
                    && m@ == "You don't have permission to update this box"@)
            },
        },
{
    let box_rec = match store.get_box(id) {
        Ok(b) => b,
        Err(StoreError::NotFound(_)) => {
            return Err(
                AppError::unauthorized(owned("You don't have permission to update this box")),
            );
        },
        Err(e) => {
            return Err(AppError::from(e));
        },
    };
    if !eq_str(&box_rec.owner_id, user_id) {
        return Err(AppError::unauthorized(owned("You don't have permission to update this box")));
    }
    let changed = apply_box_update(box_rec, payload, now_str());
    let updated = match store.update_box(changed) {
        Ok(b) => b,
        Err(e) => {
            return Err(AppError::from(e));
        },
    };
    Ok(BoxResponse::from(updated))
}

/// DELETE /boxes/owned/{id}: deletes a box the user owns.
pub fn delete_box<S: BoxStore>(store: &mut S, id: &str, user_id: &str) -> (r: Result<
    MessageResponse,
    AppError,
>)
    requires
        old(store).inv(),
    ensures
        final(store).inv(),
        old(store).reliable() && owns(old(store).boxes(), id@, user_id@) ==> r is Ok,
        match r {
            Ok(m) => owns(old(store).boxes(), id@, user_id@) && final(store).boxes() == old(
                store,
            ).boxes().remove(id@) && m.message@ == "Box deleted successfully."@ && m.box_id is None,
            Err(e) => final(store).boxes() == old(store).boxes() && refused_for(
                old(store).boxes(),
                old(store).reliable(),
                id@,
                user_id@,
                "You don't have permission to delete this box"@,
                e,
            ),
        },
{
    let _box_rec = get_owned_box(
        &*store,
        id,
        user_id,
        "You don't have permission to delete this box",
    )?;
    match store.delete_box(id) {
        Ok(_) => {},
        Err(e) => {
            return Err(AppError::from(e));
        },
    }
    Ok(MessageResponse { message: owned("Box deleted successfully."), box_id: None })
}

/// Adds or replaces a guardian of a box the owner owns; gives the stored box
/// and whether a guardian was changed (always).
fn update_or_add_guardian<S: BoxStore>(
    store: &mut S,
    box_id: &str,
    owner_id: &str,
    guardian: &Guardian,
) -> (r: Result<(BoxRecord, bool), AppError>)
    requires
        old(store).inv(),
    ensures
        final(store).inv(),
        old(store).reliable() && owns(old(store).boxes(), box_id@, owner_id@) ==> r is Ok,
        match r {
            Ok((b, changed)) => {
                &&& changed
                &&& owns(old(store).boxes(), box_id@, owner_id@)
                &&& final(store).boxes() == old(store).boxes().insert(box_id@, b@)
                &&& same_content(
                    b@,
                    BoxView {
                        guardians: upserted_guardians(
                            old(store).boxes()[box_id@].guardians,
                            *guardian,
                        ),
                        ..old(store).boxes()[box_id@]
                    },
                )
            },
            Err(e) => final(store).boxes() == old(store).boxes() && refused_for(
                old(store).boxes(),
                old(store).reliable(),
                box_id@,
                owner_id@,
                "You don't have permission to update this box"@,
                e,
            ),
        },
{
    let box_rec = get_owned_box(
        &*store,
        box_id,
        owner_id,
        "You don't have permission to update this box",
    )?;
    let changed = upsert_guardian(box_rec, guardian.clone(), now_str());
    let updated = match store.update_box(changed) {
        Ok(b) => b,
        Err(e) => {
            return Err(AppError::from(e));
        },
    };
    Ok((updated, true))
}

/// A sequence holding a guardian with id `id` has a first such guardian.
proof fn lemma_first_guardian(gs: Seq<Guardian>, id: Seq<char>) -> (i: int)
    requires
        has_guardian_id(gs, id),
    ensures
        0 <= i < gs.len() && gs[i].id@ == id && forall|j: int|
            0 <= j < i ==> #[trigger] gs[j].id@ != id,
        i == guardian_position(gs, id),
    decreases gs.len(),
{
    let prefix = gs.drop_last();
    let i = if has_guardian_id(prefix, id) {
        let k = lemma_first_guardian(prefix, id);
        assert forall|j: int| 0 <= j < k implies #[trigger] gs[j].id@ != id by {
            assert(gs[j] == prefix[j]);
        }
        assert(gs[k] == prefix[k]);
        k
    } else {
        let n = gs.len() - 1;
        assert forall|j: int| 0 <= j < n implies #[trigger] gs[j].id@ != id by {
            assert(gs[j] == prefix[j]);
        }
        let w = choose|w: int| 0 <= w < gs.len() && #[trigger] gs[w].id@ == id;
        if w < n {
            assert(prefix[w] == gs[w]);
        }
        n
    };
    let q = guardian_position(gs, id);
    assert(q == i) by {
        if q < i {
            assert(gs[q].id@ != id);
        } else if q > i {
            assert(gs[i].id@ != id);
        }
    }
    i
}

/// After writing guardian `g`, the first guardian with its id is `g`.
pub proof fn lemma_upserted_has(gs: Seq<Guardian>, g: Guardian)
    ensures
        has_guardian_id(upserted_guardians(gs, g), g.id@),
        upserted_guardians(gs, g)[guardian_position(upserted_guardians(gs, g), g.id@)] == g,
{
    let us = upserted_guardians(gs, g);
    if has_guardian_id(gs, g.id@) {
        let p = lemma_first_guardian(gs, g.id@);
        assert(us[p] == g);
        assert(has_guardian_id(us, g.id@));
        let q = lemma_first_guardian(us, g.id@);
        assert(q == p) by {
            if q < p {
                assert(us[q] == gs[q]);
            } else if q > p {
                assert(us[p].id@ == g.id@);
            }
        }
    } else {
        let n = gs.len() as int;
        assert(us[n] == g);
        assert(has_guardian_id(us, g.id@));
        let q = lemma_first_guardian(us, g.id@);
        assert(q == n) by {
            if q < n {
                assert(us[q] == gs[q]);
            }
        }
    }
}

/// Writing the same guardian twice gives the guardians of writing it once.
pub proof fn lemma_upsert_guardian_idempotent(gs: Seq<Guardian>, g: Guardian)
    ensures
        upserted_guardians(upserted_guardians(gs, g), g) == upserted_guardians(gs, g),
{
    let us = upserted_guardians(gs, g);
    lemma_upserted_has(gs, g);
    let q = lemma_first_guardian(us, g.id@);
    assert(us.update(q, g) =~= us);
}

/// PATCH /boxes/owned/{id}/guardian: adds or replaces a guardian of a box
/// the user owns; answers with that guardian and all guardians.
pub fn update_guardian<S: BoxStore>(
    store: &mut S,
    box_id: &str,
    user_id: &str,
    guardian: Guardian,
) -> (r: Result<GuardianUpdateResponse, AppError>)
    requires
        old(store).inv(),
    ensures
        final(store).inv(),
        old(store).reliable() && owns(old(store).boxes(), box_id@, user_id@) ==> r is Ok,
        match r {
            Ok(resp) => {
                &&& owns(old(store).boxes(), box_id@, user_id@)
                &&& final(store).boxes().contains_key(box_id@)
                &&& final(store).boxes() == old(store).boxes().insert(
                    box_id@,
                    final(store).boxes()[box_id@],
                )
                &&& same_content(
                    final(store).boxes()[box_id@],
                    BoxView {
                        guardians: upserted_guardians(
                            old(store).boxes()[box_id@].guardians,
                            guardian,
                        ),
                        ..old(store).boxes()[box_id@]
                    },
                )
                &&& resp.id == guardian.id && resp.name == guardian.name && resp.status
                    == guardian.status && resp.lead_guardian == guardian.lead_guardian
                    && resp.added_at == guardian.added_at && resp.invitation_id
                    == guardian.invitation_id
                &&& resp.all_guardians@ == final(store).boxes()[box_id@].guardians
                &&& resp.updated_at == final(store).boxes()[box_id@].updated_at
            },
            Err(e) => final(store).boxes() == old(store).boxes() && refused_for(
                old(store).boxes(),
                old(store).reliable(),
                box_id@,
                user_id@,
                "You don't have permission to update this box"@,
                e,
            ),
        },
{
    let (updated, _) = update_or_add_guardian(store, box_id, user_id, &guardian)?;
    proof {
        lemma_upserted_has(old(store).boxes()[box_id@].guardians, guardian);
    }
    let i = match find_guardian(&updated.guardians, guardian.id.as_str()) {
        Some(i) => i,
        None => {
            return Err(
                AppError::internal_server_error(owned("Updated guardian not found in response")),
            );
        },
    };
    let g = &updated.guardians[i];
    Ok(
        GuardianUpdateResponse {
            id: g.id.clone(),
            name: g.name.clone(),
            status: g.status.clone(),
            lead_guardian: g.lead_guardian,
            added_at: g.added_at.clone(),
            invitation_id: g.invitation_id.clone(),
            all_guardians: copy_guardians(&updated.guardians),
            updated_at: updated.updated_at.clone(),
        },
    )
}

/// Adds or replaces a document of a box the owner owns; gives the stored
/// box and whether a document was changed (always).
fn update_or_add_document<S: BoxStore>(
    store: &mut S,
    box_id: &str,
    owner_id: &str,
    document: &Document,
) -> (r: Result<(BoxRecord, bool), AppError>)
    requires
        old(store).inv(),
    ensures
        final(store).inv(),
        old(store).reliable() && owns(old(store).boxes(), box_id@, owner_id@) ==> r is Ok,
        match r {
            Ok((b, changed)) => {
                &&& changed
                &&& owns(old(store).boxes(), box_id@, owner_id@)
                &&& final(store).boxes() == old(store).boxes().insert(box_id@, b@)
                &&& same_content(
                    b@,
                    BoxView {
                        documents: upserted_documents(
                            old(store).boxes()[box_id@].documents,
                            *document,
                        ),
                        ..old(store).boxes()[box_id@]
                    },
                )
            },
            Err(e) => final(store).boxes() == old(store).boxes() && refused_for(
                old(store).boxes(),
                old(store).reliable(),
                box_id@,
                owner_id@,
                "You don't have permission to update this box"@,
                e,
            ),
        },
{
    let box_rec = get_owned_box(
        &*store,
        box_id,
        owner_id,
        "You don't have permission to update this box",
    )?;
    let changed = upsert_document(box_rec, document.clone(), now_str());
    let updated = match store.update_box(changed) {
        Ok(b) => b,
        Err(e) => {
            return Err(AppError::from(e));
        },
    };
    Ok((updated, true))
}

/// PATCH /boxes/owned/{id}/document: adds or replaces a document of a box
/// the user owns; answers with all documents.
pub fn update_document<S: BoxStore>(
    store: &mut S,
    box_id: &str,
    user_id: &str,
    document: Document,
) -> (r: Result<DocumentUpdateResponse, AppError>)
    requires
        old(store).inv(),
    ensures
        final(store).inv(),
        old(store).reliable() && owns(old(store).boxes(), box_id@, user_id@) ==> r is Ok,
        match r {
            Ok(resp) => {
                &&& owns(old(store).boxes(), box_id@, user_id@)
                &&& final(store).boxes().contains_key(box_id@)
                &&& final(store).boxes() == old(store).boxes().insert(
                    box_id@,
                    final(store).boxes()[box_id@],
                )
                &&& same_content(
                    final(store).boxes()[box_id@],
                    BoxView {
                        documents: upserted_documents(
                            old(store).boxes()[box_id@].documents,
                            document,
                        ),
                        ..old(store).boxes()[box_id@]
                    },
                )
                &&& resp.documents@ == final(store).boxes()[box_id@].documents
                &&& resp.updated_at == final(store).boxes()[box_id@].updated_at
            },
            Err(e) => final(store).boxes() == old(store).boxes() && refused_for(
                old(store).boxes(),
                old(store).reliable(),
                box_id@,
                user_id@,
                "You don't have permission to update this box"@,
                e,
            ),
        },
{
    let (updated, _) = update_or_add_document(store, box_id, user_id, &document)?;
    Ok(DocumentUpdateResponse { documents: updated.documents, updated_at: updated.updated_at })
}

/// Removes a document from a box the owner owns; gives the stored box.
fn delete_document_from_box<S: BoxStore>(
    store: &mut S,
    box_id: &str,
    owner_id: &str,
    document_id: &str,
) -> (r: Result<BoxRecord, AppError>)
    requires
        old(store).inv(),
    ensures
        final(store).inv(),
        old(store).reliable() && owns(old(store).boxes(), box_id@, owner_id@) && has_document_id(
            old(store).boxes()[box_id@].documents,
            document_id@,
        ) ==> r is Ok,
        match r {
            Ok(b) => {
                &&& owns(old(store).boxes(), box_id@, owner_id@)
                &&& has_document_id(old(store).boxes()[box_id@].documents, document_id@)
                &&& final(store).boxes() == old(store).boxes().insert(box_id@, b@)
                &&& same_content(
                    b@,
                    BoxView {
                        documents: old(store).boxes()[box_id@].documents.remove(
                            document_position(old(store).boxes()[box_id@].documents, document_id@),
                        ),
                        ..old(store).boxes()[box_id@]
                    },
                )
            },
            Err(e) => {
                &&& final(store).boxes() == old(store).boxes()
                &&& refused_for(
                    old(store).boxes(),
                    old(store).reliable(),
                    box_id@,
                    owner_id@,
                    "You don't have permission to delete documents from this box"@,
                    e,
                )
                &&& old(store).reliable() && owns(old(store).boxes(), box_id@, owner_id@) && !has_document_id(
                    old(store).boxes()[box_id@].documents,
                    document_id@,
                ) ==> (e matches AppError::NotFound(m) && m@ == "Document with ID "@ + document_id@
                    + " not found in box "@ + box_id@)
            },
        },
{
    let box_rec = get_owned_box(
        &*store,
        box_id,
        owner_id,
        "You don't have permission to delete documents from this box",
    )?;
    let changed = match remove_document(box_rec, document_id, now_str()) {
        Some(b) => b,
        None => {
            return Err(
                AppError::not_found(
                    concat4("Document with ID ", document_id, " not found in box ", box_id),
                ),
            );
        },
    };
    match store.update_box(changed) {
        Ok(b) => Ok(b),
        Err(e) => Err(AppError::from(e)),
    }
}

/// DELETE /boxes/owned/{id}/document/{document_id}: removes a document from
/// a box the user owns; answers with a message and the remaining documents.
pub fn delete_document<S: BoxStore>(
    store: &mut S,
    box_id: &str,
    document_id: &str,
    user_id: &str,
) -> (r: Result<(String, DocumentUpdateResponse), AppError>)
    requires
        old(store).inv(),
    ensures
        final(store).inv(),
        old(store).reliable() && owns(old(store).boxes(), box_id@, user_id@) && has_document_id(
            old(store).boxes()[box_id@].documents,
            document_id@,
        ) ==> r is Ok,
        match r {
            Ok((message, resp)) => {
                &&& message@ == "Document deleted successfully"@
                &&& owns(old(store).boxes(), box_id@, user_id@)
                &&& has_document_id(old(store).boxes()[box_id@].documents, document_id@)
                &&& final(store).boxes().contains_key(box_id@)
                &&& final(store).boxes() == old(store).boxes().insert(
                    box_id@,
                    final(store).boxes()[box_id@],
                )
                &&& resp.documents@ == old(store).boxes()[box_id@].documents.remove(
                    document_position(old(store).boxes()[box_id@].documents, document_id@),
                )
                &&& resp.documents@ == final(store).boxes()[box_id@].documents
                &&& resp.updated_at == final(store).boxes()[box_id@].updated_at
            },
            Err(e) => {
                &&& final(store).boxes() == old(store).boxes()
                &&& refused_for(
                    old(store).boxes(),
                    old(store).reliable(),
                    box_id@,
                    user_id@,
                    "You don't have permission to delete documents from this box"@,
                    e,
                )
                &&& old(store).reliable() && owns(old(store).boxes(), box_id@, user_id@) && !has_document_id(
                    old(store).boxes()[box_id@].documents,
                    document_id@,
                ) ==> (e matches AppError::NotFound(m) && m@ == "Document with ID "@ + document_id@
                    + " not found in box "@ + box_id@)
            },
        },
{
    let updated = delete_document_from_box(store, box_id, user_id, document_id)?;
    Ok(
        (
            owned("Document deleted successfully"),
            DocumentUpdateResponse { documents: updated.documents, updated_at: updated.updated_at },
        ),
    )
}

/// Removes a guardian from a box the owner owns; gives the stored box.
fn delete_guardian_from_box<S: BoxStore>(
    store: &mut S,
    box_id: &str,
    owner_id: &str,
    guardian_id: &str,
) -> (r: Result<BoxRecord, AppError>)
    requires
        old(store).inv(),
    ensures
        final(store).inv(),
        old(store).reliable() && owns(old(store).boxes(), box_id@, owner_id@) && has_guardian_id(
            old(store).boxes()[box_id@].guardians,
            guardian_id@,
        ) ==> r is Ok,
        match r {
            Ok(b) => {
                &&& owns(old(store).boxes(), box_id@, owner_id@)
                &&& has_guardian_id(old(store).boxes()[box_id@].guardians, guardian_id@)
                &&& final(store).boxes() == old(store).boxes().insert(box_id@, b@)
                &&& same_content(
                    b@,
                    BoxView {
                        guardians: old(store).boxes()[box_id@].guardians.remove(
                            guardian_position(old(store).boxes()[box_id@].guardians, guardian_id@),
                        ),
                        ..old(store).boxes()[box_id@]
                    },
                )
            },
            Err(e) => {
                &&& final(store).boxes() == old(store).boxes()
                &&& refused_for(
                    old(store).boxes(),
                    old(store).reliable(),
                    box_id@,
                    owner_id@,
                    "You don't have permission to delete guardians from this box"@,
                    e,
                )
                &&& old(store).reliable() && owns(old(store).boxes(), box_id@, owner_id@) && !has_guardian_id(
                    old(store).boxes()[box_id@].guardians,
                    guardian_id@,
                ) ==> (e matches AppError::NotFound(m) && m@ == "Guardian with ID "@ + guardian_id@
                    + " not found in box "@ + box_id@)
            },
        },
{
    let box_rec = get_owned_box(
        &*store,
        box_id,
        owner_id,
        "You don't have permission to delete guardians from this box",
    )?;
    let changed = match remove_guardian(box_rec, guardian_id, now_str()) {
        Some(b) => b,
        None => {
            return Err(
                AppError::not_found(
                    concat4("Guardian with ID ", guardian_id, " not found in box ", box_id),
                ),
            );
        },
    };
    match store.update_box(changed) {
        Ok(b) => Ok(b),
        Err(e) => Err(AppError::from(e)),
    }
}

/// DELETE /boxes/owned/{id}/guardian/{guardian_id}: removes a guardian from
/// a box the user owns; answers with a message, the removed guardian, and
/// the remaining guardians. A guardian missing from an existing box is
/// reported as not found before ownership is checked.
pub fn delete_guardian<S: BoxStore>(
    store: &mut S,
    box_id: &str,
    guardian_id: &str,
    user_id: &str,
) -> (r: Result<(String, GuardianUpdateResponse), AppError>)
    requires
        old(store).inv(),
    ensures
        final(store).inv(),
        old(store).reliable() && owns(old(store).boxes(), box_id@, user_id@) && has_guardian_id(
            old(store).boxes()[box_id@].guardians,
            guardian_id@,
        ) ==> r is Ok,
        !old(store).boxes().contains_key(box_id@) ==> r matches Err(AppError::NotFound(_)),
        old(store).reliable() && old(store).boxes().contains_key(box_id@) && !has_guardian_id(
            old(store).boxes()[box_id@].guardians,
            guardian_id@,
        ) ==> (r matches Err(AppError::NotFound(m)) && m@ == "Guardian with ID "@ + guardian_id@
            + " not found"@),
        old(store).reliable() && old(store).boxes().contains_key(box_id@) && has_guardian_id(
            old(store).boxes()[box_id@].guardians,
            guardian_id@,
        ) && old(store).boxes()[box_id@].owner_id@ != user_id@ ==> (r matches Err(
            AppError::Unauthorized(m),
        ) && m@ == "You don't have permission to delete guardians from this box"@),
        match r {
            Ok((message, resp)) => {
                let gs = old(store).boxes()[box_id@].guardians;
                let removed = gs[guardian_position(gs, guardian_id@)];
                &&& message@ == "Guardian deleted successfully"@
                &&& owns(old(store).boxes(), box_id@, user_id@)
                &&& has_guardian_id(gs, guardian_id@)
                &&& final(store).boxes().contains_key(box_id@)
                &&& final(store).boxes() == old(store).boxes().insert(
                    box_id@,
                    final(store).boxes()[box_id@],
                )
                &&& resp.id == removed.id && resp.name == removed.name && resp.status
                    == removed.status && resp.lead_guardian == removed.lead_guardian
                    && resp.added_at == removed.added_at && resp.invitation_id
                    == removed.invitation_id
                &&& resp.all_guardians@ == gs.remove(guardian_position(gs, guardian_id@))
                &&& resp.all_guardians@ == final(store).boxes()[box_id@].guardians
                &&& resp.updated_at == final(store).boxes()[box_id@].updated_at
            },
            Err(_) => final(store).boxes() == old(store).boxes(),
        },
{
    let before = match store.get_box(box_id) {
        Ok(b) => b,
        Err(e) => {
            return Err(AppError::from(e));
        },
    };
    let i = match find_guardian(&before.guardians, guardian_id) {
        Some(i) => i,
        None => {
            return Err(
                AppError::not_found(
                    crate::text::concat3("Guardian with ID ", guardian_id, " not found"),
                ),
            );
        },
    };
    let removed = before.guardians[i].clone();
    let updated = delete_guardian_from_box(store, box_id, user_id, guardian_id)?;
    Ok(
        (
            owned("Guardian deleted successfully"),
            GuardianUpdateResponse {
                id: removed.id,
                name: removed.name,
                status: removed.status,
                lead_guardian: removed.lead_guardian,
                added_at: removed.added_at,
                invitation_id: removed.invitation_id,
                all_guardians: updated.guardians,
                updated_at: updated.updated_at,
            },
        ),
    )
}

/// `nds` is `ds` with `d` written: the first document of `nds` with `d`'s id
/// is exactly `d`, at the place of the first such document of `ds` or at
/// the end if `ds` had none, and every other document of `ds` is kept where
/// it was.
pub open spec fn document_written(ds: Seq<Document>, nds: Seq<Document>, d: Document) -> bool {
    exists|i: int|
        0 <= i < nds.len() && #[trigger] nds[i] == d && (forall|j: int|
            0 <= j < i ==> nds[j].id@ != d.id@) && (forall|j: int|
            0 <= j < ds.len() && j != i ==> nds[j] == ds[j]) && nds.len() == (if i < ds.len() {
            ds.len() as int
        } else {
            ds.len() + 1int
        }) && (i < ds.len() ==> ds[i].id@ == d.id@ && forall|j: int| 0 <= j < i ==> ds[j].id@ != d.id@)
}

/// A box's documents holding the id have a first one, at the position
/// `document_position` gives.
proof fn lemma_first_document(gs: Seq<Document>, id: Seq<char>) -> (i: int)
    requires
        has_document_id(gs, id),
    ensures
        0 <= i < gs.len() && gs[i].id@ == id && forall|j: int|
            0 <= j < i ==> #[trigger] gs[j].id@ != id,
        i == document_position(gs, id),
    decreases gs.len(),
{
    let prefix = gs.drop_last();
    let i = if has_document_id(prefix, id) {
        let k = lemma_first_document(prefix, id);
        assert forall|j: int| 0 <= j < k implies #[trigger] gs[j].id@ != id by {
            assert(gs[j] == prefix[j]);
        }
        assert(gs[k] == prefix[k]);
        k
    } else {
        let n = gs.len() - 1;
        assert forall|j: int| 0 <= j < n implies #[trigger] gs[j].id@ != id by {
            assert(gs[j] == prefix[j]);
        }
        let w = choose|w: int| 0 <= w < gs.len() && #[trigger] gs[w].id@ == id;
        if w < n {
            assert(prefix[w] == gs[w]);
        }
        n
    };
    let q = document_position(gs, id);
    assert(q == i) by {
        if q < i {
            assert(gs[q].id@ != id);
        } else if q > i {
            assert(gs[i].id@ != id);
        }
    }
    i
}

/// After writing guardian `g`, the first guardian with its id is `g`.
/// Writing a document replaces the whole of the first document with its id
/// (content included), or adds it at the end, and leaves every other
/// document as it was.
pub proof fn lemma_document_written(ds: Seq<Document>, d: Document)
    ensures
        document_written(ds, upserted_documents(ds, d), d),
{
    let nds = upserted_documents(ds, d);
    if has_document_id(ds, d.id@) {
        let i = lemma_first_document(ds, d.id@);
        assert(nds[i] == d);
        assert forall|j: int| 0 <= j < i implies nds[j].id@ != d.id@ by {
            assert(nds[j] == ds[j]);
        }
    } else {
        let i = ds.len() as int;
        assert(nds[i] == d);
        assert forall|j: int| 0 <= j < i implies nds[j].id@ != d.id@ by {
            assert(nds[j] == ds[j]);
        }
    }
}

/// An owner's change sets each detail the request gives and keeps each it
/// leaves out: a requested lock state is the box's lock state whatever it
/// was (a locked box can be unlocked), a requested name or description
/// replaces the old one, and unlock instructions are set, cleared or kept.
/// Nothing else changes but the update time.
pub proof fn lemma_update_sets_requested_details(b: BoxView, p: UpdateBoxRequest, now: String)
    ensures
        p.name matches Some(n) ==> updated_box(b, p, now).name == n,
        p.name is None ==> updated_box(b, p, now).name == b.name,
        p.description matches Some(d) ==> updated_box(b, p, now).description == d,
        p.description is None ==> updated_box(b, p, now).description == b.description,
        p.unlock_instructions matches Some(OptionalField::Value(v)) ==> updated_box(
            b,
            p,
            now,
        ).unlock_instructions == Some(v),
        p.unlock_instructions matches Some(OptionalField::Null) ==> updated_box(
            b,
            p,
            now,
        ).unlock_instructions is None,
        p.unlock_instructions is None ==> updated_box(b, p, now).unlock_instructions
            == b.unlock_instructions,
        p.is_locked matches Some(l) ==> updated_box(b, p, now).is_locked == l,
        p.is_locked is None ==> updated_box(b, p, now).is_locked == b.is_locked,
        updated_box(b, p, now) == (BoxView {
            name: updated_box(b, p, now).name,
            description: updated_box(b, p, now).description,
            unlock_instructions: updated_box(b, p, now).unlock_instructions,
            is_locked: updated_box(b, p, now).is_locked,
            updated_at: now,
            ..b
        }),
{
}

} // verus!
