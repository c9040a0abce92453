//! An in-memory box store: the boxes in insertion order, and an index from
//! owner to the boxes filed under that owner.
use vstd::prelude::*;
use crate::keyed::{
    index_of_key, keyed_map, lemma_keyed_absent, lemma_keyed_at, lemma_keyed_push, lemma_keyed_remove,
    lemma_keyed_update, unique_keys,
};
use crate::shared::error::StoreError;
use crate::shared::models::{
    box_has_active_guardian, has_active_guardian, has_active_guardian_in, BoxRecord, BoxView,
};
use crate::shared::store::BoxStore;
use crate::text::{concat3, concat4, eq_string, u64_to_decimal, decimal};

verus! {

/// The key of a box: its id.
pub open spec fn box_key() -> spec_fn(BoxRecord) -> Seq<char> {
    |b: BoxRecord| b.id@
}

/// The views of a map of boxes.
pub open spec fn box_views(m: Map<Seq<char>, BoxRecord>) -> Map<Seq<char>, BoxView> {
    m.map_values(|b: BoxRecord| b@)
}

proof fn lemma_box_views_insert(m: Map<Seq<char>, BoxRecord>, k: Seq<char>, b: BoxRecord)
    ensures
        box_views(m.insert(k, b)) == box_views(m).insert(k, b@),
{
    assert(box_views(m.insert(k, b)) =~= box_views(m).insert(k, b@));
}

proof fn lemma_box_views_remove(m: Map<Seq<char>, BoxRecord>, k: Seq<char>)
    ensures
        box_views(m.remove(k)) == box_views(m).remove(k),
{
    assert(box_views(m.remove(k)) =~= box_views(m).remove(k));
}

/// One filing of a box under an owner.
pub struct OwnerIndexEntry {
    pub owner_id: String,
    pub box_id: String,
}

/// The (owner, box) pairs of an index.
pub open spec fn index_pairs(s: Seq<OwnerIndexEntry>) -> Seq<(Seq<char>, Seq<char>)> {
    s.map_values(|e: OwnerIndexEntry| (e.owner_id@, e.box_id@))
}

/// The index without the filings of box `id` under `owner`.
pub open spec fn without_filing(
    s: Seq<(Seq<char>, Seq<char>)>,
    owner: Seq<char>,
    id: Seq<char>,
) -> Seq<(Seq<char>, Seq<char>)>
    decreases s.len(),
{
    if s.len() == 0 {
        s
    } else if s.last() == (owner, id) {
        without_filing(s.drop_last(), owner, id)
    } else {
        without_filing(s.drop_last(), owner, id).push(s.last())
    }
}

/// The boxes filed under `owner`, in filing order, skipping filings of boxes
/// no longer held.
pub open spec fn owner_boxes(
    boxes: Map<Seq<char>, BoxView>,
    index: Seq<(Seq<char>, Seq<char>)>,
    owner: Seq<char>,
) -> Seq<BoxView>
    decreases index.len(),
{
    if index.len() == 0 {
        Seq::empty()
    } else {
        let prev = owner_boxes(boxes, index.drop_last(), owner);
        let (o, id) = index.last();
        if o == owner && boxes.contains_key(id) {
            prev.push(boxes[id])
        } else {
            prev
        }
    }
}

/// The boxes of `s` of which `user` is a guardian who has not rejected them.
pub open spec fn guardian_boxes(s: Seq<BoxRecord>, user: Seq<char>) -> Seq<BoxView>
    decreases s.len(),
{
    if s.len() == 0 {
        Seq::empty()
    } else {
        let prev = guardian_boxes(s.drop_last(), user);
        if has_active_guardian(s.last(), user) {
            prev.push(s.last()@)
        } else {
            prev
        }
    }
}

/// The boxes a sequence of creations leaves in an empty store.
pub open spec fn loaded_boxes(s: Seq<BoxRecord>) -> Map<Seq<char>, BoxView>
    decreases s.len(),
{
    if s.len() == 0 {
        Map::empty()
    } else {
        loaded_boxes(s.drop_last()).insert(s.last().id@, s.last()@)
    }
}

/// The index a sequence of creations leaves in an empty store.
pub open spec fn loaded_index(s: Seq<BoxRecord>) -> Seq<(Seq<char>, Seq<char>)> {
    s.map_values(|b: BoxRecord| (b.owner_id@, b.id@))
}

/// Every box held is filed under its owner.
pub open spec fn all_filed(boxes: Map<Seq<char>, BoxView>, index: Seq<(Seq<char>, Seq<char>)>) -> bool {
    forall|id: Seq<char>|
        #[trigger] boxes.contains_key(id) ==> index.contains((boxes[id].owner_id@, id))
}

proof fn lemma_filed_after_insert(
    boxes: Map<Seq<char>, BoxView>,
    index: Seq<(Seq<char>, Seq<char>)>,
    id: Seq<char>,
    b: BoxView,
)
    requires
        all_filed(boxes, index),
    ensures
        all_filed(boxes.insert(id, b), index.push((b.owner_id@, id))),
{
    let nb = boxes.insert(id, b);
    let ni = index.push((b.owner_id@, id));
    assert forall|k: Seq<char>| #[trigger] nb.contains_key(k) implies ni.contains(
        (nb[k].owner_id@, k),
    ) by {
        if k == id {
            assert(ni[index.len() as int] == (b.owner_id@, id));
        } else {
            let j = choose|j: int| 0 <= j < index.len() && index[j] == (boxes[k].owner_id@, k);
            assert(ni[j] == index[j]);
        }
    }
}

proof fn lemma_filed_after_replace(
    boxes: Map<Seq<char>, BoxView>,
    index: Seq<(Seq<char>, Seq<char>)>,
    id: Seq<char>,
    b: BoxView,
)
    requires
        all_filed(boxes, index),
        boxes.contains_key(id),
        boxes[id].owner_id@ == b.owner_id@,
    ensures
        all_filed(boxes.insert(id, b), index),
{
    assert forall|k: Seq<char>| #[trigger] boxes.insert(id, b).contains_key(k) implies index.contains(
        (boxes.insert(id, b)[k].owner_id@, k),
    ) by {
        assert(boxes.contains_key(k));
    }
}

proof fn lemma_without_filing_keeps(
    s: Seq<(Seq<char>, Seq<char>)>,
    owner: Seq<char>,
    id: Seq<char>,
    p: (Seq<char>, Seq<char>),
)
    requires
        s.contains(p),
        p != (owner, id),
    ensures
        without_filing(s, owner, id).contains(p),
    decreases s.len(),
{
    let w = without_filing(s, owner, id);
    if s.last() == p {
        assert(w[w.len() - 1] == p);
    } else {
        let j = choose|j: int| 0 <= j < s.len() && s[j] == p;
        assert(s.drop_last()[j] == p);
        lemma_without_filing_keeps(s.drop_last(), owner, id, p);
        let q = without_filing(s.drop_last(), owner, id);
        let k = choose|k: int| 0 <= k < q.len() && q[k] == p;
        if s.last() != (owner, id) {
            assert(w[k] == q[k]);
        }
    }
}

proof fn lemma_filed_after_remove(
    boxes: Map<Seq<char>, BoxView>,
    index: Seq<(Seq<char>, Seq<char>)>,
    id: Seq<char>,
    owner: Seq<char>,
)
    requires
        all_filed(boxes, index),
    ensures
        all_filed(boxes.remove(id), without_filing(index, owner, id)),
{
    assert forall|k: Seq<char>| #[trigger] boxes.remove(id).contains_key(k) implies without_filing(
        index,
        owner,
        id,
    ).contains((boxes.remove(id)[k].owner_id@, k)) by {
        lemma_without_filing_keeps(index, owner, id, (boxes[k].owner_id@, k));
    }
}

/// A box filed under `owner` and held is among the boxes listed for the
/// owner.
proof fn lemma_owner_boxes_complete(
    boxes: Map<Seq<char>, BoxView>,
    index: Seq<(Seq<char>, Seq<char>)>,
    owner: Seq<char>,
    k: Seq<char>,
)
    requires
        index.contains((owner, k)),
        boxes.contains_key(k),
    ensures
        exists|j: int|
            0 <= j < owner_boxes(boxes, index, owner).len() && owner_boxes(boxes, index, owner)[j]
                == boxes[k],
    decreases index.len(),
{
    let r = owner_boxes(boxes, index, owner);
    if index.last() == (owner, k) {
        assert(r[r.len() - 1] == boxes[k]);
    } else {
        let j = choose|j: int| 0 <= j < index.len() && index[j] == (owner, k);
        assert(index.drop_last()[j] == (owner, k));
        lemma_owner_boxes_complete(boxes, index.drop_last(), owner, k);
        let p = owner_boxes(boxes, index.drop_last(), owner);
        let m = choose|m: int| 0 <= m < p.len() && p[m] == boxes[k];
        assert(r[m] == p[m]);
    }
}

/// Every box of `s` guarded by `user` is among those `guardian_boxes` keeps.
proof fn lemma_guardian_boxes_complete(s: Seq<BoxRecord>, user: Seq<char>, j: int)
    requires
        0 <= j < s.len(),
        has_active_guardian(s[j], user),
    ensures
        exists|k: int|
            0 <= k < guardian_boxes(s, user).len() && guardian_boxes(s, user)[k] == s[j]@,
    decreases s.len(),
{
    if j == s.len() - 1 {
        assert(guardian_boxes(s, user)[guardian_boxes(s, user).len() - 1] == s[j]@);
    } else {
        assert(s.drop_last()[j] == s[j]);
        lemma_guardian_boxes_complete(s.drop_last(), user, j);
        let p = guardian_boxes(s.drop_last(), user);
        let k = choose|k: int| 0 <= k < p.len() && p[k] == s[j]@;
        assert(guardian_boxes(s, user)[k] == p[k]);
    }
}

/// Each box `guardian_boxes` keeps is a box of `s`; when the ids in `s` are
/// distinct, so are the ids of the boxes kept.
proof fn lemma_guardian_boxes_distinct(s: Seq<BoxRecord>, user: Seq<char>)
    requires
        unique_keys(s, box_key()),
    ensures
        forall|k: int|
            0 <= k < guardian_boxes(s, user).len() ==> exists|j: int|
                0 <= j < s.len() && #[trigger] guardian_boxes(s, user)[k] == s[j]@,
        forall|a: int, b: int|
            #![trigger guardian_boxes(s, user)[a], guardian_boxes(s, user)[b]]
            0 <= a < b < guardian_boxes(s, user).len() ==> guardian_boxes(s, user)[a].id@
                != guardian_boxes(s, user)[b].id@,
    decreases s.len(),
{
    if s.len() > 0 {
        let t = s.drop_last();
        let last = s.len() - 1;
        assert forall|i: int, j: int|
            0 <= i < t.len() && 0 <= j < t.len() && i != j implies #[trigger] box_key()(t[i])
            != #[trigger] box_key()(t[j]) by {
            assert(t[i] == s[i] && t[j] == s[j]);
        }
        lemma_guardian_boxes_distinct(t, user);
        let p = guardian_boxes(t, user);
        let g = guardian_boxes(s, user);
        assert forall|k: int| 0 <= k < p.len() implies exists|j: int|
            0 <= j < last && #[trigger] p[k] == s[j]@ by {
            let j = choose|j: int| 0 <= j < t.len() && p[k] == t[j]@;
            assert(t[j] == s[j]);
        }
        assert forall|k: int| 0 <= k < g.len() implies exists|j: int|
            0 <= j < s.len() && #[trigger] g[k] == s[j]@ by {
            if k < p.len() {
                assert(g[k] == p[k]);
                let j = choose|j: int| 0 <= j < last && p[k] == s[j]@;
                assert(g[k] == s[j]@);
            } else {
                assert(g[k] == s[last]@);
            }
        }
        assert forall|a: int, b: int|
            #![trigger g[a], g[b]]
            0 <= a < b < g.len() implies g[a].id@ != g[b].id@ by {
            if b < p.len() {
                assert(g[a] == p[a] && g[b] == p[b]);
            } else {
                assert(g[a] == p[a]);
                assert(g[b] == s[last]@);
                let j = choose|j: int| 0 <= j < last && p[a] == s[j]@;
                assert(box_key()(s[j]) != box_key()(s[last]));
            }
        }
    }
}

/// The boxes of `s` owned by `owner`, in order.
pub open spec fn owned_views(s: Seq<BoxRecord>, owner: Seq<char>) -> Seq<BoxView>
    decreases s.len(),
{
    if s.len() == 0 {
        Seq::empty()
    } else if s.last().owner_id@ == owner {
        owned_views(s.drop_last(), owner).push(s.last()@)
    } else {
        owned_views(s.drop_last(), owner)
    }
}

/// No two boxes of `s` share an id.
pub open spec fn distinct_box_ids(s: Seq<BoxRecord>) -> bool {
    forall|i: int, j: int|
        #![trigger s[i], s[j]]
        0 <= i < s.len() && 0 <= j < s.len() && i != j ==> s[i].id@ != s[j].id@
}

/// Loading boxes holds exactly the ids loaded.
pub proof fn lemma_loaded_box_ids(s: Seq<BoxRecord>, id: Seq<char>)
    ensures
        loaded_boxes(s).contains_key(id) <==> exists|k: int|
            0 <= k < s.len() && #[trigger] s[k].id@ == id,
    decreases s.len(),
{
    if s.len() > 0 {
        let t = s.drop_last();
        lemma_loaded_box_ids(t, id);
        if loaded_boxes(t).contains_key(id) {
            let k = choose|k: int| 0 <= k < t.len() && #[trigger] t[k].id@ == id;
            assert(s[k] == t[k]);
        }
        if exists|k: int| 0 <= k < s.len() && #[trigger] s[k].id@ == id {
            let k = choose|k: int| 0 <= k < s.len() && #[trigger] s[k].id@ == id;
            if k < s.len() - 1 {
                assert(t[k] == s[k]);
            }
        }
    }
}

/// Loading boxes of distinct ids holds each under its id.
pub proof fn lemma_loaded_box_read_back(s: Seq<BoxRecord>, k: int)
    requires
        distinct_box_ids(s),
        0 <= k < s.len(),
    ensures
        loaded_boxes(s).contains_key(s[k].id@),
        loaded_boxes(s)[s[k].id@] == s[k]@,
    decreases s.len(),
{
    let last = s.len() - 1;
    if k < last {
        let t = s.drop_last();
        assert(t[k] == s[k]);
        assert forall|i: int, j: int|
            #![trigger t[i], t[j]]
            0 <= i < t.len() && 0 <= j < t.len() && i != j implies t[i].id@ != t[j].id@ by {
            assert(t[i] == s[i] && t[j] == s[j]);
        }
        lemma_loaded_box_read_back(t, k);
        assert(s[k].id@ != s[last].id@);
    }
}

/// Where each box of `s` is held as loaded, the filings of `s` list an
/// owner's boxes as `s` has them, in order.
pub proof fn lemma_owner_boxes_loaded(m: Map<Seq<char>, BoxView>, s: Seq<BoxRecord>, owner: Seq<char>)
    requires
        forall|k: int| 0 <= k < s.len() ==> m.contains_key(#[trigger] s[k].id@) && m[s[k].id@]
            == s[k]@,
    ensures
        owner_boxes(m, loaded_index(s), owner) == owned_views(s, owner),
    decreases s.len(),
{
    if s.len() > 0 {
        let t = s.drop_last();
        assert forall|k: int| 0 <= k < t.len() implies m.contains_key(#[trigger] t[k].id@)
            && m[t[k].id@] == t[k]@ by {
            assert(t[k] == s[k]);
        }
        lemma_owner_boxes_loaded(m, t, owner);
        assert(loaded_index(s).drop_last() =~= loaded_index(t));
        assert(m.contains_key(s[s.len() - 1].id@));
    }
}

/// Filings of `s` taken away by `without_filing` leave only filings of `s`
/// other than the one removed.
proof fn lemma_without_filing_entries(
    s: Seq<(Seq<char>, Seq<char>)>,
    owner: Seq<char>,
    id: Seq<char>,
    k: int,
)
    requires
        0 <= k < without_filing(s, owner, id).len(),
    ensures
        without_filing(s, owner, id)[k] != (owner, id),
        s.contains(without_filing(s, owner, id)[k]),
    decreases s.len(),
{
    let w = without_filing(s, owner, id);
    let t = s.drop_last();
    if s.last() == (owner, id) {
        lemma_without_filing_entries(t, owner, id, k);
        let j = choose|j: int| 0 <= j < t.len() && t[j] == without_filing(t, owner, id)[k];
        assert(s[j] == t[j]);
    } else if k < w.len() - 1 {
        assert(w[k] == without_filing(t, owner, id)[k]);
        lemma_without_filing_entries(t, owner, id, k);
        let j = choose|j: int| 0 <= j < t.len() && t[j] == without_filing(t, owner, id)[k];
        assert(s[j] == t[j]);
    } else {
        assert(s[s.len() - 1] == w[k]);
    }
}

/// Each box an owner's listing shows comes from a filing under that owner
/// of a held box.
proof fn lemma_owner_boxes_sources(
    m: Map<Seq<char>, BoxView>,
    index: Seq<(Seq<char>, Seq<char>)>,
    owner: Seq<char>,
    j: int,
)
    requires
        0 <= j < owner_boxes(m, index, owner).len(),
    ensures
        exists|k: int|
            0 <= k < index.len() && index[k].0 == owner && m.contains_key(index[k].1)
                && owner_boxes(m, index, owner)[j] == m[#[trigger] index[k].1],
    decreases index.len(),
{
    let p = owner_boxes(m, index.drop_last(), owner);
    if j < p.len() {
        lemma_owner_boxes_sources(m, index.drop_last(), owner, j);
        let k = choose|k: int|
            0 <= k < index.drop_last().len() && index.drop_last()[k].0 == owner && m.contains_key(
                index.drop_last()[k].1,
            ) && p[j] == m[#[trigger] index.drop_last()[k].1];
        assert(index[k] == index.drop_last()[k]);
        assert(owner_boxes(m, index, owner)[j] == p[j]);
    } else {
        assert(owner_boxes(m, index, owner)[j] == m[index[index.len() - 1].1]);
    }
}

/// Every filing of a held box is under the box's owner.
pub open spec fn files_only_owners(
    boxes: Map<Seq<char>, BoxView>,
    index: Seq<(Seq<char>, Seq<char>)>,
) -> bool {
    forall|k: int|
        0 <= k < index.len() && boxes.contains_key(#[trigger] index[k].1) ==> boxes[index[k].1].owner_id@
            == index[k].0
}

/// The filings once box `id` of `boxes` is written as `b`: unchanged when
/// the owner stays, else moved from the former owner to the new one.
pub open spec fn refiled(
    boxes: Map<Seq<char>, BoxView>,
    index: Seq<(Seq<char>, Seq<char>)>,
    id: Seq<char>,
    b: BoxView,
) -> Seq<(Seq<char>, Seq<char>)> {
    if boxes[id].owner_id@ == b.owner_id@ {
        index
    } else {
        without_filing(index, boxes[id].owner_id@, id).push((b.owner_id@, id))
    }
}

/// After a held box is updated, listing its owner's boxes shows it as
/// written, and no other owner's listing shows it: a box given to another
/// owner leaves the former owner's listing. This holds of a store whose
/// filings are each under the filed box's owner.
pub proof fn lemma_listing_after_update(
    boxes: Map<Seq<char>, BoxView>,
    index: Seq<(Seq<char>, Seq<char>)>,
    id: Seq<char>,
    b: BoxView,
    other: Seq<char>,
)
    requires
        boxes.contains_key(id),
        b.id@ == id,
        forall|k: Seq<char>| #[trigger] boxes.contains_key(k) ==> boxes[k].id@ == k,
        all_filed(boxes, index),
        files_only_owners(boxes, index),
        other != b.owner_id@,
    ensures
        exists|j: int|
            0 <= j < owner_boxes(
                boxes.insert(id, b),
                refiled(boxes, index, id, b),
                b.owner_id@,
            ).len() && owner_boxes(boxes.insert(id, b), refiled(boxes, index, id, b), b.owner_id@)[j]
                == b,
        forall|j: int|
            0 <= j < owner_boxes(boxes.insert(id, b), refiled(boxes, index, id, b), other).len()
                ==> (#[trigger] owner_boxes(
                boxes.insert(id, b),
                refiled(boxes, index, id, b),
                other,
            )[j]).id@ != id,
{
    let m2 = boxes.insert(id, b);
    let idx2 = refiled(boxes, index, id, b);
    if boxes[id].owner_id@ == b.owner_id@ {
        assert(index.contains((b.owner_id@, id)));
        lemma_owner_boxes_complete(m2, index, b.owner_id@, id);
    } else {
        let ob = owner_boxes(m2, idx2, b.owner_id@);
        assert(idx2.last() == (b.owner_id@, id));
        assert(ob[ob.len() - 1] == b);
    }
    assert forall|j: int|
        0 <= j < owner_boxes(m2, idx2, other).len() implies (#[trigger] owner_boxes(
        m2,
        idx2,
        other,
    )[j]).id@ != id by {
        lemma_owner_boxes_sources(m2, idx2, other, j);
        let k = choose|k: int|
            0 <= k < idx2.len() && idx2[k].0 == other && m2.contains_key(idx2[k].1)
                && owner_boxes(m2, idx2, other)[j] == m2[#[trigger] idx2[k].1];
        let key = idx2[k].1;
        if key == id {
            if boxes[id].owner_id@ == b.owner_id@ {
                assert(boxes.contains_key(index[k].1));
            } else {
                if k < idx2.len() - 1 {
                    let w = without_filing(index, boxes[id].owner_id@, id);
                    assert(idx2[k] == w[k]);
                    lemma_without_filing_entries(index, boxes[id].owner_id@, id, k);
                    let q = choose|q: int| 0 <= q < index.len() && index[q] == w[k];
                    assert(boxes.contains_key(index[q].1));
                }
            }
        } else {
            assert(m2[key] == boxes[key]);
        }
    }
}

/// The version a box gets when it is updated: one more, wrapping at the
/// maximum.
pub open spec fn next_version(v: u64) -> u64 {
    if v == u64::MAX {
        0
    } else {
        (v + 1) as u64
    }
}

/// Of two updates made from the same read of a box, the second is refused:
/// the first gives the stored box another version.
pub proof fn lemma_update_changes_version(v: u64)
    ensures
        next_version(v) != v,
{
}

/// A simple in-memory implementation of `BoxStore` for testing.
pub struct MockBoxStore {
    records: Vec<BoxRecord>,
    owner_index: Vec<OwnerIndexEntry>,
}

impl MockBoxStore {
    /// The boxes in the order they were first stored.
    pub closed spec fn records(&self) -> Seq<BoxRecord> {
        self.records@
    }

    /// The (owner, box) filings, oldest first.
    pub closed spec fn index(&self) -> Seq<(Seq<char>, Seq<char>)> {
        index_pairs(self.owner_index@)
    }

    /// A store loaded with boxes of distinct ids holds exactly those ids,
    /// each box as loaded; it lists an owner's boxes as the loaded ones of
    /// that owner, in order; and each of its filings is under the filed
    /// box's owner.
    pub proof fn lemma_loaded_reads(&self, s: Seq<BoxRecord>, k: int, id: Seq<char>, owner: Seq<char>)
        requires
            self.boxes() == loaded_boxes(s),
            self.index() == loaded_index(s),
            distinct_box_ids(s),
            0 <= k < s.len(),
        ensures
            self.boxes().contains_key(s[k].id@),
            self.boxes()[s[k].id@] == s[k]@,
            self.boxes().contains_key(id) <==> exists|j: int|
                0 <= j < s.len() && #[trigger] s[j].id@ == id,
            owner_boxes(self.boxes(), self.index(), owner) == owned_views(s, owner),
            files_only_owners(self.boxes(), self.index()),
    {
        lemma_loaded_box_read_back(s, k);
        lemma_loaded_box_ids(s, id);
        assert forall|j: int| 0 <= j < s.len() implies self.boxes().contains_key(
            #[trigger] s[j].id@,
        ) && self.boxes()[s[j].id@] == s[j]@ by {
            lemma_loaded_box_read_back(s, j);
        }
        lemma_owner_boxes_loaded(self.boxes(), s, owner);
        assert forall|q: int|
            0 <= q < self.index().len() && self.boxes().contains_key(
                #[trigger] self.index()[q].1,
            ) implies self.boxes()[self.index()[q].1].owner_id@ == self.index()[q].0 by {
            assert(self.index()[q] == (s[q].owner_id@, s[q].id@));
            lemma_loaded_box_read_back(s, q);
        }
    }

    /// An update of a held box, in a store whose filings are each under the
    /// filed box's owner: the new owner's listing shows the box as written,
    /// and no other owner's listing shows it.
    pub proof fn lemma_update_listing(&self, after: MockBoxStore, b: BoxView, other: Seq<char>)
        requires
            self.inv(),
            files_only_owners(self.boxes(), self.index()),
            self.boxes().contains_key(b.id@),
            after.boxes() == self.boxes().insert(b.id@, b),
            after.index() == refiled(self.boxes(), self.index(), b.id@, b),
            other != b.owner_id@,
        ensures
            exists|j: int|
                0 <= j < owner_boxes(after.boxes(), after.index(), b.owner_id@).len()
                    && owner_boxes(after.boxes(), after.index(), b.owner_id@)[j] == b,
            forall|j: int|
                0 <= j < owner_boxes(after.boxes(), after.index(), other).len() ==> (
                #[trigger] owner_boxes(after.boxes(), after.index(), other)[j]).id@ != b.id@,
    {
        assert forall|k: Seq<char>| #[trigger] self.boxes().contains_key(k) implies self.boxes()[k].id@
            == k by {
            self.lemma_box_id_is_key(k);
        }
        lemma_listing_after_update(self.boxes(), self.index(), b.id@, b, other);
    }

    /// The box held under an id has that id.
    pub proof fn lemma_box_id_is_key(&self, id: Seq<char>)
        requires
            self.boxes().contains_key(id),
        ensures
            self.boxes()[id].id@ == id,
    {
        let s = self.records@;
        let j = index_of_key(s, box_key(), id);
        assert(box_key()(s[j]) == id);
    }

    /// An empty store.
    pub fn new() -> (r: Self)
        ensures
            r.inv(),
            r.boxes() == Map::<Seq<char>, BoxView>::empty(),
            r.index() == Seq::<(Seq<char>, Seq<char>)>::empty(),
            r.records() == Seq::<BoxRecord>::empty(),
            r.reliable(),
    {
        let r = MockBoxStore { records: Vec::new(), owner_index: Vec::new() };
        assert(r.boxes() =~= Map::<Seq<char>, BoxView>::empty());
        assert(r.index() =~= Seq::<(Seq<char>, Seq<char>)>::empty());
        r
    }

    /// A store holding the given boxes, stored one after another.
    pub fn with_data(box_records: Vec<BoxRecord>) -> (r: Self)
        ensures
            r.inv(),
            r.boxes() == loaded_boxes(box_records@),
            r.index() == loaded_index(box_records@),
            r.reliable(),
    {
        let mut store = Self::new();
        let mut i: usize = 0;
        while i < box_records.len()
            invariant
                i <= box_records@.len(),
                store.inv(),
                store.boxes() == loaded_boxes(box_records@.take(i as int)),
                store.index() == loaded_index(box_records@.take(i as int)),
            decreases box_records@.len() - i,
        {
            let b = box_records[i].clone();
            let ghost pre = box_records@.take(i as int);
            let ghost post = box_records@.take(i + 1);
            assert(post.drop_last() =~= pre);
            assert(post.last() == box_records@[i as int]);
            store.insert_record(b);
            assert(loaded_index(post) =~= loaded_index(pre).push(
                (box_records@[i as int].owner_id@, box_records@[i as int].id@),
            ));
            i = i + 1;
        }
        assert(box_records@.take(box_records@.len() as int) =~= box_records@);
        store
    }

    /// The position of the box with the given id.
    fn find(&self, id: &String) -> (r: Option<usize>)
        requires
            self.inv(),
        ensures
            match r {
                Some(i) => i < self.records@.len() && self.records@[i as int].id@ == id@
                    && self.boxes().contains_key(id@) && self.boxes()[id@]
                    == self.records@[i as int]@,
                None => !self.boxes().contains_key(id@),
            },
    {
        let mut i: usize = 0;
        while i < self.records.len()
            invariant
                self.inv(),
                i <= self.records@.len(),
                forall|j: int| 0 <= j < i ==> #[trigger] self.records@[j].id@ != id@,
            decreases self.records@.len() - i,
        {
            if eq_string(&self.records[i].id, id) {
                proof {
                    lemma_keyed_at(self.records@, box_key(), i as int);
                }
                return Some(i);
            }
            i = i + 1;
        }
        proof {
            assert forall|j: int| 0 <= j < self.records@.len() implies (box_key())(
                #[trigger] self.records@[j],
            ) != id@ by {}
            lemma_keyed_absent(self.records@, box_key(), id@);
        }
        None
    }

    /// Stores a box under its id, replacing any box with that id, and files
    /// it under its owner.
    fn insert_record(&mut self, box_record: BoxRecord)
        requires
            old(self).inv(),
        ensures
            final(self).inv(),
            final(self).boxes() == old(self).boxes().insert(box_record.id@, box_record@),
            final(self).index() == old(self).index().push(
                (box_record.owner_id@, box_record.id@),
            ),
    {
        let owner_id = box_record.owner_id.clone();
        let box_id = box_record.id.clone();
        let ghost old_records = self.records@;
        proof {
            lemma_filed_after_insert(self.boxes(), self.index(), box_record.id@, box_record@);
        }
        match self.find(&box_id) {
            Some(i) => {
                proof {
                    lemma_keyed_update(old_records, box_key(), i as int, box_record);
                    lemma_box_views_insert(
                        keyed_map(old_records, box_key()),
                        box_record.id@,
                        box_record,
                    );
                }
                self.records.set(i, box_record);
            },
            None => {
                proof {
                    lemma_keyed_push(old_records, box_key(), box_record);
                    lemma_box_views_insert(
                        keyed_map(old_records, box_key()),
                        box_record.id@,
                        box_record,
                    );
                }
                self.records.push(box_record);
            },
        }
        let ghost old_index = self.owner_index@;
        self.owner_index.push(OwnerIndexEntry { owner_id, box_id });
        assert(index_pairs(self.owner_index@) =~= index_pairs(old_index).push(
            (box_record.owner_id@, box_record.id@),
        ));
    }

    /// The index without the filings of box `id` under `owner`.
    fn remove_filing(&mut self, owner: &String, id: &String)
        ensures
            final(self).records@ == old(self).records@,
            final(self).index() == without_filing(old(self).index(), owner@, id@),
    {
        let mut kept: Vec<OwnerIndexEntry> = Vec::new();
        let mut i: usize = 0;
        let ghost all = index_pairs(self.owner_index@);
        while i < self.owner_index.len()
            invariant
                i <= self.owner_index@.len(),
                all == index_pairs(self.owner_index@),
                index_pairs(kept@) == without_filing(all.take(i as int), owner@, id@),
            decreases self.owner_index@.len() - i,
        {
            let ghost pre = all.take(i as int);
            let ghost post = all.take(i + 1);
            assert(post.drop_last() =~= pre);
            let e = &self.owner_index[i];
            if !(eq_string(&e.owner_id, owner) && eq_string(&e.box_id, id)) {
                let ghost before = kept@;
                kept.push(OwnerIndexEntry { owner_id: e.owner_id.clone(), box_id: e.box_id.clone() });
                assert(index_pairs(kept@) =~= index_pairs(before).push(all[i as int]));
            }
            i = i + 1;
        }
        assert(all.take(all.len() as int) =~= all);
        self.owner_index = kept;
    }

    /// The boxes filed under `owner`.
    fn boxes_filed_under(&self, owner_id: &str) -> (r: Vec<BoxRecord>)
        requires
            self.inv(),
        ensures
            r@.map_values(|b: BoxRecord| b@) == owner_boxes(self.boxes(), self.index(), owner_id@),
            forall|i: int|
                0 <= i < r@.len() ==> self.boxes().contains_key(#[trigger] r@[i].id@)
                    && self.boxes()[r@[i].id@] == r@[i]@,
    {
        let owner = crate::text::owned(owner_id);
        let mut out: Vec<BoxRecord> = Vec::new();
        let mut i: usize = 0;
        let ghost all = self.index();
        while i < self.owner_index.len()
            invariant
                self.inv(),
                owner@ == owner_id@,
                i <= self.owner_index@.len(),
                all == self.index(),
                out@.map_values(|b: BoxRecord| b@) == owner_boxes(
                    self.boxes(),
                    all.take(i as int),
                    owner_id@,
                ),
                forall|j: int|
                    0 <= j < out@.len() ==> self.boxes().contains_key(#[trigger] out@[j].id@)
                        && self.boxes()[out@[j].id@] == out@[j]@,
            decreases self.owner_index@.len() - i,
        {
            let ghost pre = all.take(i as int);
            let ghost post = all.take(i + 1);
            assert(post.drop_last() =~= pre);
            assert(post.last() == (self.owner_index@[i as int].owner_id@, self.owner_index@[i as int].box_id@));
            if eq_string(&self.owner_index[i].owner_id, &owner) {
                match self.find(&self.owner_index[i].box_id) {
                    Some(k) => {
                        let ghost before = out@;
                        out.push(self.records[k].clone());
                        assert(out@.map_values(|b: BoxRecord| b@) =~= before.map_values(
                            |b: BoxRecord| b@,
                        ).push(self.records@[k as int]@));
                    },
                    None => {},
                }
            }
            i = i + 1;
        }
        assert(all.take(all.len() as int) =~= all);
        out
    }

    /// The boxes of which `user` is a guardian who has not rejected them.
    fn boxes_guarded_by(&self, guardian_id: &str) -> (r: Vec<BoxRecord>)
        requires
            self.inv(),
        ensures
            r@.map_values(|b: BoxRecord| b@) == guardian_boxes(self.records@, guardian_id@),
            forall|i: int|
                0 <= i < r@.len() ==> {
                    &&& self.boxes().contains_key(#[trigger] r@[i].id@)
                    &&& self.boxes()[r@[i].id@] == r@[i]@
                    &&& has_active_guardian(r@[i], guardian_id@)
                },
    {
        let mut out: Vec<BoxRecord> = Vec::new();
        let mut i: usize = 0;
        while i < self.records.len()
            invariant
                self.inv(),
                i <= self.records@.len(),
                out@.map_values(|b: BoxRecord| b@) == guardian_boxes(
                    self.records@.take(i as int),
                    guardian_id@,
                ),
                forall|j: int|
                    0 <= j < out@.len() ==> {
                        &&& self.boxes().contains_key(#[trigger] out@[j].id@)
                        &&& self.boxes()[out@[j].id@] == out@[j]@
                        &&& has_active_guardian(out@[j], guardian_id@)
                    },
            decreases self.records@.len() - i,
        {
            let ghost pre = self.records@.take(i as int);
            let ghost post = self.records@.take(i + 1);
            assert(post.drop_last() =~= pre);
            if box_has_active_guardian(&self.records[i], guardian_id) {
                proof {
                    lemma_keyed_at(self.records@, box_key(), i as int);
                }
                let ghost before = out@;
                let b = self.records[i].clone();
                out.push(b);
                assert(out@.map_values(|b: BoxRecord| b@) =~= before.map_values(
                    |b: BoxRecord| b@,
                ).push(self.records@[i as int]@));
            }
            i = i + 1;
        }
        assert(self.records@.take(self.records@.len() as int) =~= self.records@);
        out
    }
}

impl BoxStore for MockBoxStore {
    closed spec fn boxes(&self) -> Map<Seq<char>, BoxView> {
        box_views(keyed_map(self.records@, box_key()))
    }

    closed spec fn inv(&self) -> bool {
        &&& unique_keys(self.records@, box_key())
        &&& all_filed(self.boxes(), self.index())
    }

    closed spec fn reliable(&self) -> bool {
        true
    }

    /// Stores the box, replacing any box with its id, and files it under its
    /// owner (again, if it was filed there already).
    fn create_box(&mut self, box_record: BoxRecord) -> (r: Result<BoxRecord, StoreError>)
        ensures
            r is Ok,
            final(self).index() == old(self).index().push(
                (box_record.owner_id@, box_record.id@),
            ),
    {
        let copy = box_record.clone();
        self.insert_record(box_record);
        Ok(copy)
    }

    fn get_box(&self, id: &str) -> (r: Result<BoxRecord, StoreError>)
        ensures
            self.boxes().contains_key(id@) ==> r is Ok,
            r matches Err(e) ==> (e matches StoreError::NotFound(m) && m@ == "Box with id "@ + id@
                + " not found"@),
    {
        let key = crate::text::owned(id);
        match self.find(&key) {
            Some(i) => {
                proof {
                    lemma_keyed_at(self.records@, box_key(), i as int);
                }
                Ok(self.records[i].clone())
            },
            None => Err(StoreError::NotFound(concat3("Box with id ", id, " not found"))),
        }
    }

    /// The boxes filed under the owner, in filing order.
    fn get_boxes_by_owner(&self, owner_id: &str) -> (r: Result<Vec<BoxRecord>, StoreError>)
        ensures
            r matches Ok(v) && v@.map_values(|b: BoxRecord| b@) == owner_boxes(
                self.boxes(),
                self.index(),
                owner_id@,
            ),
    {
        let v = self.boxes_filed_under(owner_id);
        proof {
            assert forall|id: Seq<char>|
                #[trigger] self.boxes().contains_key(id) && self.boxes()[id].owner_id@ == owner_id@
                    implies exists|i: int| 0 <= i < v@.len() && v@[i].id@ == id by {
                lemma_owner_boxes_complete(self.boxes(), self.index(), owner_id@, id);
                let ob = owner_boxes(self.boxes(), self.index(), owner_id@);
                let j = choose|j: int| 0 <= j < ob.len() && ob[j] == self.boxes()[id];
                assert(v@.map_values(|b: BoxRecord| b@)[j] == v@[j]@);
                self.lemma_box_id_is_key(id);
            }
        }
        Ok(v)
    }

    /// The boxes of which the user is an active guardian, in storage order.
    fn get_boxes_by_guardian_id(&self, guardian_id: &str) -> (r: Result<
        Vec<BoxRecord>,
        StoreError,
    >)
        ensures
            r matches Ok(v) && v@.map_values(|b: BoxRecord| b@) == guardian_boxes(
                self.records(),
                guardian_id@,
            ),
    {
        let v = self.boxes_guarded_by(guardian_id);
        proof {
            assert forall|id: Seq<char>|
                #[trigger] self.boxes().contains_key(id) && has_active_guardian_in(
                    self.boxes()[id].guardians,
                    guardian_id@,
                ) implies exists|i: int| 0 <= i < v@.len() && v@[i].id@ == id by {
                let s = self.records@;
                let j = index_of_key(s, box_key(), id);
                lemma_keyed_at(s, box_key(), j);
                lemma_guardian_boxes_complete(s, guardian_id@, j);
                let gb = guardian_boxes(s, guardian_id@);
                let k = choose|k: int| 0 <= k < gb.len() && gb[k] == s[j]@;
                assert(v@.map_values(|b: BoxRecord| b@)[k] == v@[k]@);
            }
            lemma_guardian_boxes_distinct(self.records@, guardian_id@);
            let gb = guardian_boxes(self.records@, guardian_id@);
            assert forall|a: int, b: int|
                #![trigger v@[a], v@[b]]
                0 <= a < b < v@.len() implies v@[a].id@ != v@[b].id@ by {
                assert(v@.map_values(|x: BoxRecord| x@)[a] == v@[a]@);
                assert(v@.map_values(|x: BoxRecord| x@)[b] == v@[b]@);
                assert(gb[a] == v@[a]@ && gb[b] == v@[b]@);
            }
        }
        Ok(v)
    }

    /// Replaces a box held with the same version, incrementing the version
    /// (wrapping at the maximum). A change of owner moves the box's filing
    /// to the new owner.
    fn update_box(&mut self, box_record: BoxRecord) -> (r: Result<BoxRecord, StoreError>)
        ensures
            match r {
                Ok(b) => {
                    &&& old(self).boxes().contains_key(box_record.id@)
                    &&& box_record.version == old(self).boxes()[box_record.id@].version
                    &&& b@ == BoxView { version: next_version(box_record.version), ..box_record@ }
                    &&& final(self).index() == refiled(
                        old(self).boxes(),
                        old(self).index(),
                        box_record.id@,
                        b@,
                    )
                },
                Err(e) => final(self).index() == old(self).index() && if !old(
                    self,
                ).boxes().contains_key(box_record.id@) {
                    e matches StoreError::NotFound(m) && m@ == "Box with id "@ + box_record.id@
                        + " not found"@
                } else {
                    let cur = old(self).boxes()[box_record.id@].version;
                    &&& box_record.version != cur
                    &&& e matches StoreError::VersionConflict(m) && m@
                        == "Box update conflict: expected version "@ + decimal(cur as nat)
                        + ", got "@ + decimal(box_record.version as nat)
                },
            },
    {
        let box_id = box_record.id.clone();
        let i = match self.find(&box_id) {
            Some(i) => i,
            None => {
                return Err(
                    StoreError::NotFound(concat3("Box with id ", box_id.as_str(), " not found")),
                );
            },
        };
        let ghost old_boxes = self.boxes();
        let ghost old_index = self.index();
        let current_version = self.records[i].version;
        if box_record.version != current_version {
            let cur = u64_to_decimal(current_version);
            let got = u64_to_decimal(box_record.version);
            return Err(
                StoreError::VersionConflict(
                    concat4(
                        "Box update conflict: expected version ",
                        cur.as_str(),
                        ", got ",
                        got.as_str(),
                    ),
                ),
            );
        }
        let mut updated = box_record;
        updated.version = current_version.wrapping_add(1);
        let current_owner = self.records[i].owner_id.clone();
        if !eq_string(&current_owner, &updated.owner_id) {
            self.remove_filing(&current_owner, &box_id);
            let ghost before = self.owner_index@;
            self.owner_index.push(
                OwnerIndexEntry { owner_id: updated.owner_id.clone(), box_id: box_id.clone() },
            );
            assert(index_pairs(self.owner_index@) =~= index_pairs(before).push(
                (updated.owner_id@, box_id@),
            ));
        }
        let ghost old_records = self.records@;
        proof {
            lemma_keyed_update(old_records, box_key(), i as int, updated);
            lemma_box_views_insert(keyed_map(old_records, box_key()), box_id@, updated);
        }
        proof {
            let b = updated@;
            if old_boxes[box_id@].owner_id@ == b.owner_id@ {
                lemma_filed_after_replace(old_boxes, old_index, box_id@, b);
            } else {
                let owner = old_boxes[box_id@].owner_id@;
                lemma_filed_after_remove(old_boxes, old_index, box_id@, owner);
                lemma_filed_after_insert(
                    old_boxes.remove(box_id@),
                    without_filing(old_index, owner, box_id@),
                    box_id@,
                    b,
                );
                assert(old_boxes.remove(box_id@).insert(box_id@, b) =~= old_boxes.insert(
                    box_id@,
                    b,
                ));
            }
        }
        let copy = updated.clone();
        self.records.set(i, updated);
        Ok(copy)
    }

    /// Removes a box held, and its filings under its owner.
    fn delete_box(&mut self, id: &str) -> (r: Result<(), StoreError>)
        ensures
            match r {
                Ok(_) => old(self).boxes().contains_key(id@) && final(self).index()
                    == without_filing(old(self).index(), old(self).boxes()[id@].owner_id@, id@),
                Err(e) => !old(self).boxes().contains_key(id@) && (e matches StoreError::NotFound(
                    m,
                ) && m@ == "Box with id "@ + id@ + " not found"@),
            },
    {
        let key = crate::text::owned(id);
        let i = match self.find(&key) {
            Some(i) => i,
            None => {
                return Err(StoreError::NotFound(concat3("Box with id ", id, " not found")));
            },
        };
        let owner = self.records[i].owner_id.clone();
        let ghost old_records = self.records@;
        proof {
            lemma_filed_after_remove(self.boxes(), self.index(), id@, owner@);
            lemma_keyed_remove(old_records, box_key(), i as int);
            lemma_box_views_remove(keyed_map(old_records, box_key()), id@);
        }
        self.records.remove(i);
        self.remove_filing(&owner, &key);
        Ok(())
    }
}

} // verus!
