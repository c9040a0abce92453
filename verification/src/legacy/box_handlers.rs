//! What owners do in the single-service API: list, read, create, change and
//! delete their boxes, and add or replace guardians and documents. The list
//! of lead guardians follows the lead flag of the guardians written.
use vstd::prelude::*;
use crate::box_service::handlers::box_handlers::document_written;
use crate::box_service::models::OptionalField;
use crate::keyed::{any_satisfies, first_satisfying, lemma_first_satisfying};
use crate::legacy::error::AppError;
use crate::legacy::models::{
    box_response, copy_guardians, shows_box, BoxRecord, BoxResponse, BoxView, CreateBoxRequest,
    DocumentUpdateResponse, Guardian, GuardianUpdateResponse, MessageResponse, UpdateBoxRequest,
};
use crate::legacy::store::{is_user, BoxStore};
use crate::shared::ids::new_uuid;
use crate::shared::models::{copy_documents, now_str, Document};
use crate::text::{eq_str, owned};

verus! {

/// GET /boxes: the user's boxes as the owner sees them.
pub fn get_boxes<S: BoxStore>(store: &S, user_id: &str) -> (r: Result<Vec<BoxResponse>, AppError>)
    requires
        store.inv(),
    ensures
        store.reliable() ==> r is Ok,
        r matches Ok(v) ==> forall|i: int|
            0 <= i < v@.len() ==> store.boxes().contains_key(#[trigger] v@[i].id@) && shows_box(
                v@[i],
                store.boxes()[v@[i].id@],
            ) && store.boxes()[v@[i].id@].owner_id@ == user_id@,
        r matches Ok(v) ==> forall|id: Seq<char>|
            #[trigger] store.boxes().contains_key(id) && store.boxes()[id].owner_id@ == user_id@
                ==> exists|i: int| 0 <= i < v@.len() && v@[i].id@ == id,
{
    let boxes = match store.get_boxes_by_owner(user_id) {
        Ok(v) => v,
        Err(e) => {
            return Err(e);
        },
    };
    let mut out: Vec<BoxResponse> = Vec::new();
    let mut i: usize = 0;
    while i < boxes.len()
        invariant
            i <= boxes@.len(),
            out@.len() == i,
            forall|j: int|
                0 <= j < boxes@.len() ==> {
                    &&& store.boxes().contains_key(#[trigger] boxes@[j].id@)
                    &&& store.boxes()[boxes@[j].id@] == boxes@[j]@
                    &&& boxes@[j].owner_id@ == user_id@
                },
            forall|j: int| 0 <= j < i ==> shows_box(#[trigger] out@[j], boxes@[j]@),
            forall|j: int| 0 <= j < i ==> #[trigger] out@[j].id == boxes@[j].id,
        decreases boxes@.len() - i,
    {
        out.push(box_response(&boxes[i]));
        i = i + 1;
    }
    assert forall|id: Seq<char>|
        #[trigger] store.boxes().contains_key(id) && store.boxes()[id].owner_id@ == user_id@
            implies exists|k: int| 0 <= k < out@.len() && out@[k].id@ == id by {
        let k = choose|k: int| 0 <= k < boxes@.len() && boxes@[k].id@ == id;
        assert(out@[k].id == boxes@[k].id);
    }
    Ok(out)
}

/// The box with the given id, if `user_id` owns it; `action` names what was
/// attempted in the refusal.
fn owned_box<S: BoxStore>(store: &S, id: &str, user_id: &str, refusal: &str) -> (r: Result<
    BoxRecord,
    AppError,
>)
    requires
        store.inv(),
    ensures
        r matches Ok(b) ==> store.boxes().contains_key(id@) && b@ == store.boxes()[id@]
            && b.owner_id@ == user_id@ && b.id@ == id@,
        store.reliable() && store.boxes().contains_key(id@) && store.boxes()[id@].owner_id@
            != user_id@ ==> (r matches Err(AppError::Unauthorized(m)) && m@ == refusal@),
        store.reliable() && store.boxes().contains_key(id@) && store.boxes()[id@].owner_id@
            == user_id@ ==> r is Ok,
        !store.boxes().contains_key(id@) ==> r matches Err(AppError::NotFound(_)),
{
    let b = match store.get_box(id) {
        Ok(v) => v,
        Err(e) => {
            return Err(e);
        },
    };
    if !eq_str(&b.owner_id, user_id) {
        return Err(AppError::Unauthorized(owned(refusal)));
    }
    Ok(b)
}

/// GET /boxes/:id: the box, if the user owns it.
pub fn get_box<S: BoxStore>(store: &S, id: &str, user_id: &str) -> (r: Result<
    BoxResponse,
    AppError,
>)
    requires
        store.inv(),
    ensures
        r matches Ok(resp) ==> store.boxes().contains_key(id@) && shows_box(
            resp,
            store.boxes()[id@],
        ) && store.boxes()[id@].owner_id@ == user_id@,
        store.reliable() && store.boxes().contains_key(id@) && store.boxes()[id@].owner_id@
            != user_id@ ==> (r matches Err(AppError::Unauthorized(m)) && m@
            == "You don't have permission to view this box"@),
        store.reliable() && store.boxes().contains_key(id@) && store.boxes()[id@].owner_id@
            == user_id@ ==> r is Ok,
        !store.boxes().contains_key(id@) ==> r matches Err(AppError::NotFound(_)),
{
    let b = match owned_box(store, id, user_id, "You don't have permission to view this box") {
        Ok(v) => v,
        Err(e) => {
            return Err(e);
        },
    };
    Ok(box_response(&b))
}

/// A new box named and described as requested, owned by `user_id`, with the
/// given id and creation time, and nothing in it.
pub open spec fn is_new_box(b: BoxView, id: String, p: CreateBoxRequest, user_id: Seq<char>, now: String) -> bool {
    &&& b.id == id
    &&& b.name == p.name
    &&& b.description == p.description
    &&& !b.is_locked
    &&& b.created_at == now
    &&& b.updated_at == now
    &&& b.owner_id@ == user_id
    &&& b.owner_name is None
    &&& b.documents.len() == 0
    &&& b.guardians.len() == 0
    &&& b.lead_guardians.len() == 0
    &&& b.unlock_instructions is None
    &&& b.unlock_request is None
}

/// POST /boxes: creates an empty box for the user, with a fresh id, created
/// now.
pub fn create_box<S: BoxStore>(store: &mut S, user_id: &str, payload: CreateBoxRequest) -> (r:
    Result<BoxResponse, AppError>)
    requires
        old(store).inv(),
    ensures
        final(store).inv(),
        final(store).reliable() == old(store).reliable(),
        match r {
            Ok(resp) => exists|b: BoxView|
                #[trigger] is_new_box(b, b.id, payload, user_id@, b.created_at) && b.id@.len() == 36
                    && !old(store).boxes().contains_key(b.id@) && final(store).boxes() == old(
                    store,
                ).boxes().insert(b.id@, b) && shows_box(resp, b),
            Err(_) => final(store).boxes() == old(store).boxes(),
        },
        r is Err && old(store).reliable() ==> exists|id: Seq<char>|
            id.len() == 36 && #[trigger] old(store).boxes().contains_key(id),
{
    let now = now_str();
    let ghost p = payload;
    let new_box = BoxRecord {
        id: new_uuid(),
        name: payload.name,
        description: payload.description,
        is_locked: false,
        created_at: now.clone(),
        updated_at: now,
        owner_id: owned(user_id),
        owner_name: None,
        documents: Vec::new(),
        guardians: Vec::new(),
        lead_guardians: Vec::new(),
        unlock_instructions: None,
        unlock_request: None,
    };
    let ghost nb = new_box@;
    let created = match store.create_box(new_box) {
        Ok(v) => v,
        Err(e) => {
            assert(old(store).reliable() ==> old(store).boxes().contains_key(nb.id@));
            return Err(e);
        },
    };
    assert(is_new_box(nb, nb.id, p, user_id@, nb.created_at));
    Ok(box_response(&created))
}

/// The box after the changes of a request, made at `now`.
pub open spec fn updated_box(b: BoxView, p: UpdateBoxRequest, now: String) -> BoxView {
    BoxView {
        name: match p.name {
            Some(n) => n,
            None => b.name,
        },
        description: match p.description {
            Some(d) => d,
            None => b.description,
        },
        unlock_instructions: match p.unlock_instructions {
            Some(OptionalField::Value(v)) => Some(v),
            Some(OptionalField::Null) => None,
            None => b.unlock_instructions,
        },
        is_locked: match p.is_locked {
            Some(l) => l,
            None => b.is_locked,
        },
        updated_at: now,
        ..b
    }
}

/// PATCH /boxes/:id: changes the requested details of a box the user owns.
pub fn update_box<S: BoxStore>(
    store: &mut S,
    id: &str,
    user_id: &str,
    payload: UpdateBoxRequest,
) -> (r: Result<BoxResponse, AppError>)
    requires
        old(store).inv(),
    ensures
        final(store).inv(),
        final(store).reliable() == old(store).reliable(),
        match r {
            Ok(resp) => exists|nb: BoxView|
                #[trigger] shows_box(resp, nb) && old(store).boxes().contains_key(id@) && old(
                    store,
                ).boxes()[id@].owner_id@ == user_id@ && nb == (BoxView {
                    updated_at: nb.updated_at,
                    ..updated_box(old(store).boxes()[id@], payload, nb.updated_at)
                }) && final(store).boxes() == old(store).boxes().insert(id@, nb),
            Err(_) => final(store).boxes() == old(store).boxes(),
        },
        r is Ok ==> {
            let resp = r->Ok_0;
            let nb = final(store).boxes()[id@];
            let ob = old(store).boxes()[id@];
            &&& final(store).boxes().contains_key(id@)
            &&& payload.name is Some ==> resp.name == payload.name->Some_0 && nb.name
                == payload.name->Some_0
            &&& payload.name is None ==> nb.name == ob.name
            &&& payload.description is Some ==> resp.description == payload.description->Some_0
                && nb.description == payload.description->Some_0
            &&& payload.description is None ==> nb.description == ob.description
            &&& payload.unlock_instructions == Some(OptionalField::Value(
                payload.unlock_instructions->Some_0->Value_0,
            )) ==> resp.unlock_instructions == Some(
                payload.unlock_instructions->Some_0->Value_0,
            ) && nb.unlock_instructions == Some(payload.unlock_instructions->Some_0->Value_0)
            &&& payload.unlock_instructions == Some(OptionalField::<String>::Null) ==> resp.unlock_instructions
                is None && nb.unlock_instructions is None
            &&& payload.unlock_instructions is None ==> nb.unlock_instructions
                == ob.unlock_instructions
            &&& payload.is_locked is Some ==> resp.is_locked == payload.is_locked->Some_0
                && nb.is_locked == payload.is_locked->Some_0
            &&& payload.is_locked is None ==> nb.is_locked == ob.is_locked
        },
        old(store).reliable() && old(store).boxes().contains_key(id@) && old(
            store,
        ).boxes()[id@].owner_id@ != user_id@ ==> (r matches Err(AppError::Unauthorized(m)) && m@
            == "You don't have permission to update this box"@),
        !old(store).boxes().contains_key(id@) ==> r matches Err(AppError::NotFound(_)),
        old(store).reliable() && old(store).boxes().contains_key(id@) && old(
            store,
        ).boxes()[id@].owner_id@ == user_id@ ==> r is Ok,
{
    let mut b = match owned_box(&*store, id, user_id, "You don't have permission to update this box") {
        Ok(v) => v,
        Err(e) => {
            return Err(e);
        },
    };
    let ghost ob = b@;
    let ghost p = payload;
    match payload.name {
        Some(name) => {
            b.name = name;
        },
        None => {},
    }
    match payload.description {
        Some(description) => {
            b.description = description;
        },
        None => {},
    }
    match payload.unlock_instructions {
        Some(OptionalField::Value(v)) => {
            b.unlock_instructions = Some(v);
        },
        Some(OptionalField::Null) => {
            b.unlock_instructions = None;
        },
        None => {},
    }
    match payload.is_locked {
        Some(l) => {
            b.is_locked = l;
        },
        None => {},
    }
    b.updated_at = now_str();
    assert(b@ == updated_box(ob, p, b@.updated_at));
    let saved = match store.update_box(b) {
        Ok(v) => v,
        Err(e) => {
            return Err(e);
        },
    };
    let resp = box_response(&saved);
    assert(shows_box(resp, saved@));
    Ok(resp)
}

/// DELETE /boxes/:id: deletes a box the user owns.
pub fn delete_box<S: BoxStore>(store: &mut S, id: &str, user_id: &str) -> (r: Result<
    MessageResponse,
    AppError,
>)
    requires
        old(store).inv(),
    ensures
        final(store).inv(),
        final(store).reliable() == old(store).reliable(),
        match r {
            Ok(m) => m.message@ == "Box deleted successfully."@ && old(store).boxes().contains_key(
                id@,
            ) && old(store).boxes()[id@].owner_id@ == user_id@ && final(store).boxes() == old(
                store,
            ).boxes().remove(id@),
            Err(_) => final(store).boxes() == old(store).boxes(),
        },
        old(store).reliable() && old(store).boxes().contains_key(id@) && old(
            store,
        ).boxes()[id@].owner_id@ != user_id@ ==> (r matches Err(AppError::Unauthorized(m)) && m@
            == "You don't have permission to delete this box"@),
        !old(store).boxes().contains_key(id@) ==> r matches Err(AppError::NotFound(_)),
        old(store).reliable() && old(store).boxes().contains_key(id@) && old(
            store,
        ).boxes()[id@].owner_id@ == user_id@ ==> r is Ok,
{
    let _ = match owned_box(&*store, id, user_id, "You don't have permission to delete this box") {
        Ok(v) => v,
        Err(e) => {
            return Err(e);
        },
    };
    match store.delete_box(id) {
        Ok(_) => {},
        Err(e) => {
            return Err(e);
        },
    }
    Ok(MessageResponse { message: owned("Box deleted successfully.") })
}

/// Some guardian of `gs` has the id `id`.
pub open spec fn has_guardian(gs: Seq<Guardian>, id: Seq<char>) -> bool {
    any_satisfies(gs, is_user(id))
}

/// The guardians with `g` in place of the first with its id, or added.
pub open spec fn upserted_guardians(gs: Seq<Guardian>, g: Guardian) -> Seq<Guardian> {
    if has_guardian(gs, g.id@) {
        gs.update(first_satisfying(gs, is_user(g.id@)), g)
    } else {
        gs.push(g)
    }
}

/// The lead guardians without those with id `id`.
pub open spec fn without_guardian(leads: Seq<Guardian>, id: Seq<char>) -> Seq<Guardian>
    decreases leads.len(),
{
    if leads.len() == 0 {
        leads
    } else if leads.last().id@ == id {
        without_guardian(leads.drop_last(), id)
    } else {
        without_guardian(leads.drop_last(), id).push(leads.last())
    }
}

/// The lead guardians after writing guardian `g` (`existed`: a guardian with
/// its id was there before): a lead is added unless an existing guardian
/// was already listed, and an existing guardian that no longer leads is
/// taken off the list.
pub open spec fn synced_leads(leads: Seq<Guardian>, g: Guardian, existed: bool) -> Seq<Guardian> {
    if existed {
        if g.lead {
            if has_guardian(leads, g.id@) {
                leads
            } else {
                leads.push(g)
            }
        } else {
            without_guardian(leads, g.id@)
        }
    } else if g.lead {
        leads.push(g)
    } else {
        leads
    }
}

/// The lead guardians without those with the given id.
fn remove_guardian_id(leads: &Vec<Guardian>, id: &str) -> (r: Vec<Guardian>)
    ensures
        r@ == without_guardian(leads@, id@),
{
    let mut out: Vec<Guardian> = Vec::new();
    let mut i: usize = 0;
    while i < leads.len()
        invariant
            i <= leads@.len(),
            out@ == without_guardian(leads@.take(i as int), id@),
        decreases leads@.len() - i,
    {
        assert(leads@.take(i + 1).drop_last() =~= leads@.take(i as int));
        if !eq_str(&leads[i].id, id) {
            out.push(leads[i].clone());
        }
        i = i + 1;
    }
    assert(leads@.take(leads@.len() as int) =~= leads@);
    out
}

/// The position of the first guardian with the id.
fn position_of_guardian(gs: &Vec<Guardian>, id: &str) -> (r: Option<usize>)
    ensures
        match r {
            Some(i) => has_guardian(gs@, id@) && i == first_satisfying(gs@, is_user(id@)) && i
                < gs@.len(),
            None => !has_guardian(gs@, id@),
        },
{
    let mut i: usize = 0;
    while i < gs.len()
        invariant
            i <= gs@.len(),
            forall|j: int| 0 <= j < i ==> !(#[trigger] (is_user(id@))(gs@[j])),
        decreases gs@.len() - i,
    {
        if eq_str(&gs[i].id, id) {
            assert((is_user(id@))(gs@[i as int]));
            proof {
                let k = lemma_first_satisfying(gs@, is_user(id@));
                assert(k == i) by {
                    if k < i {
                    } else if k > i {
                    }
                }
            }
            return Some(i);
        }
        i = i + 1;
    }
    None
}

/// The box with `guardian` written into its guardians: in place of the one
/// with its id, or added; the lead guardians follow its lead flag.
fn write_guardian(box_rec: BoxRecord, guardian: &Guardian) -> (r: BoxRecord)
    ensures
        r@ == (BoxView {
            guardians: upserted_guardians(box_rec@.guardians, *guardian),
            lead_guardians: synced_leads(
                box_rec@.lead_guardians,
                *guardian,
                has_guardian(box_rec@.guardians, guardian.id@),
            ),
            ..box_rec@
        }),
{
    let mut b = box_rec;
    let g = guardian.clone();
    match position_of_guardian(&b.guardians, guardian.id.as_str()) {
        Some(index) => {
            b.guardians.set(index, g);
            if guardian.lead {
                if !crate::legacy::store::has_user(&b.lead_guardians, guardian.id.as_str()) {
                    b.lead_guardians.push(guardian.clone());
                }
            } else {
                b.lead_guardians = remove_guardian_id(&b.lead_guardians, guardian.id.as_str());
            }
        },
        None => {
            b.guardians.push(g);
            if guardian.lead {
                b.lead_guardians.push(guardian.clone());
            }
        },
    }
    b
}

/// Box `nb` is box `b` with guardian `g` written: added or put in place of
/// the guardian with its id, the lead guardians following, and a new update
/// time.
pub open spec fn guardian_written(b: BoxView, nb: BoxView, g: Guardian) -> bool {
    &&& nb == (BoxView {
        guardians: upserted_guardians(b.guardians, g),
        lead_guardians: synced_leads(b.lead_guardians, g, has_guardian(b.guardians, g.id@)),
        updated_at: nb.updated_at,
        ..b
    })
}

proof fn lemma_without_guardian(leads: Seq<Guardian>, id: Seq<char>)
    ensures
        !has_guardian(without_guardian(leads, id), id),
    decreases leads.len(),
{
    if leads.len() > 0 {
        lemma_without_guardian(leads.drop_last(), id);
        let w = without_guardian(leads, id);
        let p = without_guardian(leads.drop_last(), id);
        if has_guardian(w, id) {
            let k = choose|k: int| 0 <= k < w.len() && #[trigger] (is_user(id))(w[k]);
            if k < p.len() {
                assert(w[k] == p[k]);
                assert((is_user(id))(p[k]));
            }
        }
    }
}

/// After writing guardian `g`, the first guardian with its id is `g`.
pub proof fn lemma_written_guardian_found(gs: Seq<Guardian>, g: Guardian)
    ensures
        has_guardian(upserted_guardians(gs, g), g.id@),
        upserted_guardians(gs, g)[first_satisfying(upserted_guardians(gs, g), is_user(g.id@))]
            == g,
{
    let ngs = upserted_guardians(gs, g);
    let p = is_user(g.id@);
    if has_guardian(gs, g.id@) {
        let i = lemma_first_satisfying(gs, p);
        assert(p(ngs[i]));
        let k = lemma_first_satisfying(ngs, p);
        assert(k == i) by {
            if k < i {
                assert(ngs[k] == gs[k]);
            }
        }
    } else {
        let n = gs.len() as int;
        assert(p(ngs[n]));
        let k = lemma_first_satisfying(ngs, p);
        assert(k == n) by {
            if k < n {
                assert(ngs[k] == gs[k]);
                assert(p(gs[k]));
            }
        }
    }
}

/// The lead guardians follow the lead flag of a guardian written: a lead
/// is listed afterwards, and an existing guardian written without the flag
/// is no longer listed. The guardian written is the first with its id.
pub proof fn lemma_leads_follow_flag(b: BoxView, nb: BoxView, g: Guardian)
    requires
        guardian_written(b, nb, g),
    ensures
        g.lead ==> has_guardian(nb.lead_guardians, g.id@),
        !g.lead && has_guardian(b.guardians, g.id@) ==> !has_guardian(nb.lead_guardians, g.id@),
        nb.guardians[first_satisfying(nb.guardians, is_user(g.id@))] == g,
{
    lemma_written_guardian_found(b.guardians, g);
    lemma_without_guardian(b.lead_guardians, g.id@);
    if g.lead {
        let leads = b.lead_guardians;
        if !has_guardian(leads, g.id@) || !has_guardian(b.guardians, g.id@) {
            assert((is_user(g.id@))(leads.push(g)[leads.len() as int]));
        }
    }
}

/// Adds `guardian` to a box the owner owns, or replaces the guardian with
/// its id, keeping the lead guardians in step, and saves the box. Returns
/// the saved box and that a guardian was written.
pub fn update_or_add_guardian<S: BoxStore>(
    store: &mut S,
    box_id: &str,
    owner_id: &str,
    guardian: &Guardian,
) -> (r: Result<(BoxRecord, bool), AppError>)
    requires
        old(store).inv(),
    ensures
        final(store).inv(),
        final(store).reliable() == old(store).reliable(),
        match r {
            Ok((saved, written)) => {
                &&& written
                &&& old(store).boxes().contains_key(box_id@)
                &&& old(store).boxes()[box_id@].owner_id@ == owner_id@
                &&& guardian_written(old(store).boxes()[box_id@], saved@, *guardian)
                &&& final(store).boxes() == old(store).boxes().insert(box_id@, saved@)
            },
            Err(_) => final(store).boxes() == old(store).boxes(),
        },
        old(store).reliable() && old(store).boxes().contains_key(box_id@) && old(
            store,
        ).boxes()[box_id@].owner_id@ != owner_id@ ==> (r matches Err(AppError::Unauthorized(m)) && m@
            == "You don't have permission to update this box"@),
        !old(store).boxes().contains_key(box_id@) ==> r matches Err(AppError::NotFound(_)),
        old(store).reliable() && old(store).boxes().contains_key(box_id@) && old(
            store,
        ).boxes()[box_id@].owner_id@ == owner_id@ ==> r is Ok,
{
    let mut b = match owned_box(&*store, box_id, owner_id, "You don't have permission to update this box") {
        Ok(v) => v,
        Err(e) => {
            return Err(e);
        },
    };
    let ghost ob = b@;
    b = write_guardian(b, guardian);
    b.updated_at = now_str();
    let ghost sent = b@;
    assert(guardian_written(ob, sent, *guardian));
    let saved = match store.update_box(b) {
        Ok(v) => v,
        Err(e) => {
            return Err(e);
        },
    };
    Ok((saved, true))
}

/// PATCH /boxes/owned/:id/guardian: writes one guardian of a box the user
/// owns; answers with all its guardians and the update time.
pub fn update_guardian<S: BoxStore>(
    store: &mut S,
    box_id: &str,
    user_id: &str,
    guardian: &Guardian,
) -> (r: Result<GuardianUpdateResponse, AppError>)
    requires
        old(store).inv(),
    ensures
        final(store).inv(),
        final(store).reliable() == old(store).reliable(),
        match r {
            Ok(resp) => exists|nb: BoxView|
                #[trigger] guardian_written(old(store).boxes()[box_id@], nb, *guardian) && old(
                    store,
                ).boxes().contains_key(box_id@) && old(store).boxes()[box_id@].owner_id@
                    == user_id@ && final(store).boxes() == old(store).boxes().insert(box_id@, nb)
                    && resp.guardians@ == nb.guardians && resp.updated_at == nb.updated_at,
            Err(_) => final(store).boxes() == old(store).boxes(),
        },
        old(store).reliable() && old(store).boxes().contains_key(box_id@) && old(
            store,
        ).boxes()[box_id@].owner_id@ == user_id@ ==> r is Ok,
{
    let (saved, _) = match update_or_add_guardian(store, box_id, user_id, guardian) {
        Ok(v) => v,
        Err(e) => {
            return Err(e);
        },
    };
    Ok(GuardianUpdateResponse { guardians: copy_guardians(&saved.guardians), updated_at: saved.updated_at })
}

/// Some document of `ds` has the id `id`.
pub open spec fn has_document(ds: Seq<Document>, id: Seq<char>) -> bool {
    exists|i: int| 0 <= i < ds.len() && #[trigger] ds[i].id@ == id
}

/// The position of the first document with the id.
pub open spec fn document_position(ds: Seq<Document>, id: Seq<char>) -> int {
    choose|i: int|
        0 <= i < ds.len() && ds[i].id@ == id && forall|j: int| 0 <= j < i ==> #[trigger] ds[j].id@
            != id
}

/// The documents with `d` in place of the first with its id, or added.
pub open spec fn upserted_documents(ds: Seq<Document>, d: Document) -> Seq<Document> {
    if has_document(ds, d.id@) {
        ds.update(document_position(ds, d.id@), d)
    } else {
        ds.push(d)
    }
}

/// The position of the first document with the id.
fn position_of_document(ds: &Vec<Document>, id: &str) -> (r: Option<usize>)
    ensures
        match r {
            Some(i) => has_document(ds@, id@) && i == document_position(ds@, id@) && i
                < ds@.len(),
            None => !has_document(ds@, id@),
        },
{
    let mut i: usize = 0;
    while i < ds.len()
        invariant
            i <= ds@.len(),
            forall|j: int| 0 <= j < i ==> #[trigger] ds@[j].id@ != id@,
        decreases ds@.len() - i,
    {
        if eq_str(&ds[i].id, id) {
            assert(ds@[i as int].id@ == id@);
            let ghost k = document_position(ds@, id@);
            assert(k == i) by {
                if k < i {
                    assert(ds@[k].id@ != id@);
                } else if k > i {
                    assert(ds@[i as int].id@ != id@);
                }
            }
            return Some(i);
        }
        i = i + 1;
    }
    None
}

/// Adds `document` to a box the owner owns, or replaces the document with
/// its id, and saves the box. Returns the saved box and that a document was
/// written.
pub fn update_or_add_document<S: BoxStore>(
    store: &mut S,
    box_id: &str,
    owner_id: &str,
    document: &Document,
) -> (r: Result<(BoxRecord, bool), AppError>)
    requires
        old(store).inv(),
    ensures
        final(store).inv(),
        final(store).reliable() == old(store).reliable(),
        match r {
            Ok((saved, written)) => {
                let b = old(store).boxes()[box_id@];
                &&& written
                &&& old(store).boxes().contains_key(box_id@)
                &&& b.owner_id@ == owner_id@
                &&& saved@ == (BoxView {
                    documents: upserted_documents(b.documents, *document),
                    updated_at: saved@.updated_at,
                    ..b
                })
                &&& document_written(b.documents, saved.documents@, *document)
                &&& final(store).boxes() == old(store).boxes().insert(box_id@, saved@)
            },
            Err(_) => final(store).boxes() == old(store).boxes(),
        },
        old(store).reliable() && old(store).boxes().contains_key(box_id@) && old(
            store,
        ).boxes()[box_id@].owner_id@ != owner_id@ ==> (r matches Err(AppError::Unauthorized(m)) && m@
            == "You don't have permission to update this box"@),
        !old(store).boxes().contains_key(box_id@) ==> r matches Err(AppError::NotFound(_)),
        old(store).reliable() && old(store).boxes().contains_key(box_id@) && old(
            store,
        ).boxes()[box_id@].owner_id@ == owner_id@ ==> r is Ok,
{
    let mut b = match owned_box(&*store, box_id, owner_id, "You don't have permission to update this box") {
        Ok(v) => v,
        Err(e) => {
            return Err(e);
        },
    };
    let ghost ob = b@;
    let d = document.clone();
    match position_of_document(&b.documents, document.id.as_str()) {
        Some(index) => {
            b.documents.set(index, d);
        },
        None => {
            b.documents.push(d);
        },
    }
    b.updated_at = now_str();
    proof {
        lemma_document_written(ob.documents, *document);
    }
    let saved = match store.update_box(b) {
        Ok(v) => v,
        Err(e) => {
            return Err(e);
        },
    };
    Ok((saved, true))
}

/// PATCH /boxes/owned/:id/document: writes one document of a box the user
/// owns; answers with all its documents and the update time.
pub fn update_document<S: BoxStore>(
    store: &mut S,
    box_id: &str,
    user_id: &str,
    document: &Document,
) -> (r: Result<DocumentUpdateResponse, AppError>)
    requires
        old(store).inv(),
    ensures
        final(store).inv(),
        final(store).reliable() == old(store).reliable(),
        match r {
            Ok(resp) => {
                let b = old(store).boxes()[box_id@];
                &&& old(store).boxes().contains_key(box_id@)
                &&& b.owner_id@ == user_id@
                &&& resp.documents@ == upserted_documents(b.documents, *document)
                &&& final(store).boxes() == old(store).boxes().insert(
                    box_id@,
                    BoxView { documents: resp.documents@, updated_at: resp.updated_at, ..b },
                )
            },
            Err(_) => final(store).boxes() == old(store).boxes(),
        },
        old(store).reliable() && old(store).boxes().contains_key(box_id@) && old(
            store,
        ).boxes()[box_id@].owner_id@ == user_id@ ==> r is Ok,
{
    let (saved, _) = match update_or_add_document(store, box_id, user_id, document) {
        Ok(v) => v,
        Err(e) => {
            return Err(e);
        },
    };
    Ok(DocumentUpdateResponse { documents: copy_documents(&saved.documents), updated_at: saved.updated_at })
}

/// A box's documents holding the id have a first one, at the position
/// `document_position` gives.
proof fn lemma_first_document(gs: Seq<Document>, id: Seq<char>) -> (i: int)
    requires
        has_document(gs, id),
    ensures
        0 <= i < gs.len() && gs[i].id@ == id && forall|j: int|
            0 <= j < i ==> #[trigger] gs[j].id@ != id,
        i == document_position(gs, id),
    decreases gs.len(),
{
    let prefix = gs.drop_last();
    let i = if has_document(prefix, id) {
        let k = lemma_first_document(prefix, id);
        assert forall|j: int| 0 <= j < k implies #[trigger] gs[j].id@ != id by {
            assert(gs[j] == prefix[j]);
        }
        assert(gs[k] == prefix[k]);
        k
    } else {
        let n = gs.len() - 1;
        assert forall|j: int| 0 <= j < n implies #[trigger] gs[j].id@ != id by {
            assert(gs[j] == prefix[j]);
        }
        let w = choose|w: int| 0 <= w < gs.len() && #[trigger] gs[w].id@ == id;
        if w < n {
            assert(prefix[w] == gs[w]);
        }
        n
    };
    let q = document_position(gs, id);
    assert(q == i) by {
        if q < i {
            assert(gs[q].id@ != id);
        } else if q > i {
            assert(gs[i].id@ != id);
        }
    }
    i
}

/// After writing guardian `g`, the first guardian with its id is `g`.
/// Writing a document replaces the whole of the first document with its id
/// (content included), or adds it at the end, and leaves every other
/// document as it was.
pub proof fn lemma_document_written(ds: Seq<Document>, d: Document)
    ensures
        document_written(ds, upserted_documents(ds, d), d),
{
    let nds = upserted_documents(ds, d);
    if has_document(ds, d.id@) {
        let i = lemma_first_document(ds, d.id@);
        assert(nds[i] == d);
        assert forall|j: int| 0 <= j < i implies nds[j].id@ != d.id@ by {
            assert(nds[j] == ds[j]);
        }
    } else {
        let i = ds.len() as int;
        assert(nds[i] == d);
        assert forall|j: int| 0 <= j < i implies nds[j].id@ != d.id@ by {
            assert(nds[j] == ds[j]);
        }
    }
}

/// An owner's change sets each detail the request gives and keeps each it
/// leaves out: a requested description, name or lock state replaces the old
/// one, and unlock instructions are set, cleared or kept. Nothing else
/// changes but the update time.
pub proof fn lemma_update_sets_requested_details(b: BoxView, p: UpdateBoxRequest, now: String)
    ensures
        p.name matches Some(n) ==> updated_box(b, p, now).name == n,
        p.name is None ==> updated_box(b, p, now).name == b.name,
        p.description matches Some(d) ==> updated_box(b, p, now).description == d,
        p.description is None ==> updated_box(b, p, now).description == b.description,
        p.unlock_instructions matches Some(OptionalField::Value(v)) ==> updated_box(
            b,
            p,
            now,
        ).unlock_instructions == Some(v),
        p.unlock_instructions matches Some(OptionalField::Null) ==> updated_box(
            b,
            p,
            now,
        ).unlock_instructions is None,
        p.unlock_instructions is None ==> updated_box(b, p, now).unlock_instructions
            == b.unlock_instructions,
        p.is_locked matches Some(l) ==> updated_box(b, p, now).is_locked == l,
        p.is_locked is None ==> updated_box(b, p, now).is_locked == b.is_locked,
        updated_box(b, p, now) == (BoxView {
            name: updated_box(b, p, now).name,
            description: updated_box(b, p, now).description,
            unlock_instructions: updated_box(b, p, now).unlock_instructions,
            is_locked: updated_box(b, p, now).is_locked,
            updated_at: now,
            ..b
        }),
{
}

} // verus!
