//! A model of an authoritative DNS server: what a zone holds, how the server
//! answers a question, and how it takes an update (RFC 2136).
//!
//! The model leaves out the records that the service never touches: those at
//! the top of the zone, and the special rules for adding SOA, WKS and CNAME
//! records.

use vstd::prelude::*;

use crate::exchange::{NO_ERROR, NX_DOMAIN, NX_RRSET, YX_DOMAIN, YX_RRSET};
use crate::message::UpdateView;
use crate::record::{
    DataView, RecordView, CLASS_ANY, CLASS_NONE, TYPE_ANY, TYPE_CNAME,
};

verus! {

/// Data with the letters of the names in it in lower case.
pub open spec fn lower_data(data: DataView) -> DataView {
    match data {
        DataView::Ptr(name) => DataView::Ptr(crate::name::lower_name(name)),
        _ => data,
    }
}

/// A record with this owner name.
pub open spec fn owned(r: RecordView, name: Seq<Seq<u8>>) -> bool {
    crate::name::lower_name(r.name) == crate::name::lower_name(name)
}

/// A record with this owner name and type.
pub open spec fn in_set(r: RecordView, name: Seq<Seq<u8>>, kind: u16) -> bool {
    owned(r, name) && crate::record::kind_of(r.data) == kind
}

/// Records with the same owner name, type and data.
pub open spec fn same_record(a: RecordView, b: RecordView) -> bool {
    in_set(a, b.name, crate::record::kind_of(b.data)) && lower_data(a.data) == lower_data(b.data)
}

/// What a zone can hold: no record twice.
pub open spec fn is_zone(z: Set<RecordView>) -> bool {
    forall|a: RecordView, b: RecordView|
        #[trigger] z.contains(a) && #[trigger] z.contains(b) && same_record(a, b) ==> a == b
}

/// Whether the zone has a record with this name and type.
pub open spec fn has_set(z: Set<RecordView>, name: Seq<Seq<u8>>, kind: u16) -> bool {
    exists|r: RecordView| #[trigger] z.contains(r) && in_set(r, name, kind)
}

/// Whether the zone has a record with this name.
pub open spec fn in_use(z: Set<RecordView>, name: Seq<Seq<u8>>) -> bool {
    exists|r: RecordView| #[trigger] z.contains(r) && owned(r, name)
}

/// Whether the zone has all the records with the name and the type of `p` that
/// the prerequisites list, and no others.
#[verifier::opaque]
pub open spec fn set_matches(
    z: Set<RecordView>,
    prerequisites: Seq<RecordView>,
    p: RecordView,
) -> bool {
    let kind = crate::record::kind_of(p.data);
    &&& forall|r: RecordView| #[trigger]
        z.contains(r) && in_set(r, p.name, kind) ==> exists|i: int|
            0 <= i < prerequisites.len() && (#[trigger] prerequisites[i]).class == p.class
                && same_record(r, prerequisites[i])
    &&& forall|i: int|
        0 <= i < prerequisites.len() && (#[trigger] prerequisites[i]).class == p.class && in_set(
            prerequisites[i],
            p.name,
            kind,
        ) ==> exists|r: RecordView| #[trigger] z.contains(r) && same_record(r, prerequisites[i])
}

/// Whether the zone meets one of the prerequisites (RFC 2136, section 3.2).
pub open spec fn holds(
    z: Set<RecordView>,
    prerequisites: Seq<RecordView>,
    p: RecordView,
) -> bool {
    let kind = crate::record::kind_of(p.data);
    if p.class == CLASS_NONE {
        if kind == TYPE_ANY {
            !in_use(z, p.name)
        } else {
            !has_set(z, p.name, kind)
        }
    } else if p.class == CLASS_ANY {
        if kind == TYPE_ANY {
            in_use(z, p.name)
        } else {
            has_set(z, p.name, kind)
        }
    } else {
        set_matches(z, prerequisites, p)
    }
}

/// Whether the server carries out an update: the zone meets every prerequisite.
pub open spec fn accepts(z: Set<RecordView>, u: UpdateView) -> bool {
    forall|i: int|
        0 <= i < u.prerequisites.len() ==> holds(z, u.prerequisites, #[trigger] u.prerequisites[i])
}

/// The response code for an update whose prerequisite `p` the zone does not
/// meet (RFC 2136, section 3.2).
pub open spec fn refusal_code(p: RecordView) -> u16 {
    if p.class == CLASS_NONE {
        if crate::record::kind_of(p.data) == TYPE_ANY {
            YX_DOMAIN
        } else {
            YX_RRSET
        }
    } else if p.class == CLASS_ANY && crate::record::kind_of(p.data) == TYPE_ANY {
        NX_DOMAIN
    } else {
        NX_RRSET
    }
}

/// Whether the server can respond with this code to an update that it serves:
/// that for success where it carries the update out, and else that of a
/// prerequisite that the zone does not meet.
pub open spec fn responds(z: Set<RecordView>, u: UpdateView, code: u16) -> bool {
    if accepts(z, u) {
        code == NO_ERROR
    } else {
        exists|i: int|
            0 <= i < u.prerequisites.len() && !holds(
                z,
                u.prerequisites,
                #[trigger] u.prerequisites[i],
            ) && code == refusal_code(u.prerequisites[i])
    }
}

/// The zone once one record of an update has been carried out (RFC 2136,
/// section 3.4). A record is not added where its name is an alias.
pub open spec fn updated_by(z: Set<RecordView>, u: RecordView) -> Set<RecordView> {
    let kind = crate::record::kind_of(u.data);
    if u.class == CLASS_ANY {
        if kind == TYPE_ANY {
            z.filter(|r: RecordView| !owned(r, u.name))
        } else {
            z.filter(|r: RecordView| !in_set(r, u.name, kind))
        }
    } else if u.class == CLASS_NONE {
        z.filter(|r: RecordView| !same_record(r, u))
    } else if has_set(z, u.name, TYPE_CNAME) {
        z
    } else {
        z.filter(|r: RecordView| !same_record(r, u)).insert(u)
    }
}

/// The zone once the records of an update have been carried out in turn.
pub open spec fn updated(z: Set<RecordView>, updates: Seq<RecordView>) -> Set<RecordView>
    decreases updates.len(),
{
    if updates.len() == 0 {
        z
    } else {
        updated(updated_by(z, updates[0]), updates.drop_first())
    }
}

/// The zone once the server has carried out an update.
pub open spec fn after(z: Set<RecordView>, u: UpdateView) -> Set<RecordView> {
    updated(z, u.updates)
}

/// The zone once the server has taken these updates in turn and carried out
/// those that it accepts.
pub open spec fn served(z: Set<RecordView>, updates: Seq<UpdateView>) -> Set<RecordView>
    decreases updates.len(),
{
    if updates.len() == 0 {
        z
    } else {
        let u = updates[0];
        served(
            if accepts(z, u) {
                after(z, u)
            } else {
                z
            },
            updates.drop_first(),
        )
    }
}

/// Whether one of these records of an update adds a record with this name.
pub open spec fn adds_at(updates: Seq<RecordView>, name: Seq<Seq<u8>>) -> bool {
    exists|i: int|
        0 <= i < updates.len() && (#[trigger] updates[i]).class != CLASS_ANY && updates[i].class
            != CLASS_NONE && owned(updates[i], name)
}

/// Whether one of these records of an update deletes records with this name and
/// type.
pub open spec fn clears_at(updates: Seq<RecordView>, name: Seq<Seq<u8>>, kind: u16) -> bool {
    exists|i: int|
        0 <= i < updates.len() && owned(#[trigger] updates[i], name) && {
            ||| updates[i].class == CLASS_ANY && crate::record::kind_of(updates[i].data) == TYPE_ANY
            ||| (updates[i].class == CLASS_ANY || updates[i].class == CLASS_NONE)
                && crate::record::kind_of(updates[i].data) == kind
        }
}

/// Whether one of these records of an update has to do with the records with
/// this name and type.
pub open spec fn touches(updates: Seq<RecordView>, name: Seq<Seq<u8>>, kind: u16) -> bool {
    exists|i: int|
        0 <= i < updates.len() && owned(#[trigger] updates[i], name) && {
            ||| crate::record::kind_of(updates[i].data) == kind
            ||| crate::record::kind_of(updates[i].data) == TYPE_ANY
        }
}

/// Whether an update asks that there be no records with this name and type.
pub open spec fn wants_absent(u: UpdateView, name: Seq<Seq<u8>>, kind: u16) -> bool {
    exists|i: int|
        0 <= i < u.prerequisites.len() && (#[trigger] u.prerequisites[i]).class == CLASS_NONE
            && in_set(u.prerequisites[i], name, kind)
}

/// Whether these are the records with which the server answers the question for
/// a name and a type, where the name is no alias.
pub open spec fn answers(
    z: Set<RecordView>,
    name: Seq<Seq<u8>>,
    kind: u16,
    records: Seq<RecordView>,
) -> bool {
    &&& !has_set(z, name, TYPE_CNAME)
    &&& records.no_duplicates()
    &&& forall|r: RecordView| #[trigger]
        records.contains(r) <==> z.contains(r) && in_set(r, name, kind)
}

/// An update with two records carries out the first and then the second.
pub proof fn lemma_two_updates(z: Set<RecordView>, a: RecordView, b: RecordView)
    ensures
        updated(z, seq![a, b]) == updated_by(updated_by(z, a), b),
{
    let two = seq![a, b];
    assert(two.drop_first() =~= seq![b]);
    assert(seq![b].drop_first() =~= Seq::<RecordView>::empty());
    reveal_with_fuel(updated, 3);
}

/// Where one record has the name and the type, the server answers with it.
pub proof fn lemma_single_answer(
    z: Set<RecordView>,
    name: Seq<Seq<u8>>,
    kind: u16,
    record: RecordView,
    records: Seq<RecordView>,
)
    requires
        answers(z, name, kind, records),
        z.contains(record),
        in_set(record, name, kind),
        forall|r: RecordView| #[trigger] z.contains(r) && in_set(r, name, kind) ==> r == record,
    ensures
        records == seq![record],
{
    assert(records.contains(record));
    assert forall|i: int| 0 <= i < records.len() implies records[i] == record by {
        assert(records.contains(records[i]));
    }
    if records.len() > 1 {
        assert(records[0] == records[1]);
    }
    assert(records =~= seq![record]);
}

/// Where no record has the name and the type, the server answers with none.
pub proof fn lemma_no_answer(
    z: Set<RecordView>,
    name: Seq<Seq<u8>>,
    kind: u16,
    records: Seq<RecordView>,
)
    requires
        answers(z, name, kind, records),
        !has_set(z, name, kind),
    ensures
        records.len() == 0,
{
    if records.len() > 0 {
        assert(records.contains(records[0]));
    }
}

/// Where the zone meets a prerequisite that is the only one with its name and
/// type, the server answers the question for them with its record alone.
pub proof fn lemma_matched_answer(
    z: Set<RecordView>,
    prerequisites: Seq<RecordView>,
    k: int,
    records: Seq<RecordView>,
)
    requires
        is_zone(z),
        0 <= k < prerequisites.len(),
        set_matches(z, prerequisites, prerequisites[k]),
        forall|i: int|
            0 <= i < prerequisites.len() && in_set(
                #[trigger] prerequisites[i],
                prerequisites[k].name,
                crate::record::kind_of(prerequisites[k].data),
            ) ==> i == k,
        answers(
            z,
            prerequisites[k].name,
            crate::record::kind_of(prerequisites[k].data),
            records,
        ),
    ensures
        records.len() == 1,
        same_record(records[0], prerequisites[k]),
{
    reveal(set_matches);
    let p = prerequisites[k];
    let kind = crate::record::kind_of(p.data);
    assert(in_set(p, p.name, kind));
    let record = choose|r: RecordView| #[trigger] z.contains(r) && same_record(r, prerequisites[k]);
    assert forall|r: RecordView| #[trigger] z.contains(r) && in_set(r, p.name, kind) implies r
        == record by {
        let i = choose|i: int|
            0 <= i < prerequisites.len() && (#[trigger] prerequisites[i]).class == p.class
                && same_record(r, prerequisites[i]);
        assert(in_set(prerequisites[i], p.name, kind));
        assert(same_record(r, record));
    }
    lemma_single_answer(z, p.name, kind, record, records);
}

/// Where a prerequisite is the only one with its name and type, and the zone
/// holds one record with them, which is the record of the prerequisite, the zone
/// meets the prerequisite.
pub proof fn lemma_record_matches(
    z: Set<RecordView>,
    prerequisites: Seq<RecordView>,
    k: int,
    record: RecordView,
)
    requires
        0 <= k < prerequisites.len(),
        forall|i: int|
            0 <= i < prerequisites.len() && in_set(
                #[trigger] prerequisites[i],
                prerequisites[k].name,
                crate::record::kind_of(prerequisites[k].data),
            ) ==> i == k,
        z.contains(record),
        same_record(record, prerequisites[k]),
        forall|r: RecordView| #[trigger]
            z.contains(r) && in_set(
                r,
                prerequisites[k].name,
                crate::record::kind_of(prerequisites[k].data),
            ) ==> r == record,
    ensures
        set_matches(z, prerequisites, prerequisites[k]),
{
    reveal(set_matches);
}

/// Carrying out one record of an update keeps a zone free of records held twice.
pub proof fn lemma_updated_by_zone(z: Set<RecordView>, u: RecordView)
    requires
        is_zone(z),
    ensures
        is_zone(updated_by(z, u)),
{
    let z2 = updated_by(z, u);
    assert forall|a: RecordView, b: RecordView|
        #[trigger] z2.contains(a) && #[trigger] z2.contains(b) && same_record(a, b) implies a
        == b by {
        assert(a != u ==> z.contains(a));
        assert(b != u ==> z.contains(b));
    }
}

/// Carrying out an update keeps a zone free of records held twice.
pub proof fn lemma_updated_zone(z: Set<RecordView>, updates: Seq<RecordView>)
    requires
        is_zone(z),
    ensures
        is_zone(updated(z, updates)),
    decreases updates.len(),
{
    if updates.len() > 0 {
        lemma_updated_by_zone(z, updates[0]);
        lemma_updated_zone(updated_by(z, updates[0]), updates.drop_first());
    }
}

/// A name stays unused while nothing is added at it.
pub proof fn lemma_updated_unused(
    z: Set<RecordView>,
    updates: Seq<RecordView>,
    name: Seq<Seq<u8>>,
)
    requires
        !in_use(z, name),
        !adds_at(updates, name),
    ensures
        !in_use(updated(z, updates), name),
    decreases updates.len(),
{
    if updates.len() > 0 {
        let rest = updates.drop_first();
        let z1 = updated_by(z, updates[0]);
        assert(!in_use(z1, name)) by {
            if in_use(z1, name) {
                let r = choose|r: RecordView| #[trigger] z1.contains(r) && owned(r, name);
                assert(z.contains(r) || r == updates[0]);
            }
        }
        assert(!adds_at(rest, name)) by {
            if adds_at(rest, name) {
                let i = choose|i: int|
                    0 <= i < rest.len() && (#[trigger] rest[i]).class != CLASS_ANY && rest[i].class
                        != CLASS_NONE && owned(rest[i], name);
                assert(rest[i] == updates[i + 1]);
            }
        }
        lemma_updated_unused(z1, rest, name);
    }
}

/// A name stays unused while no update adds anything at it.
pub proof fn lemma_served_unused(
    z: Set<RecordView>,
    updates: Seq<UpdateView>,
    name: Seq<Seq<u8>>,
)
    requires
        !in_use(z, name),
        forall|k: int| 0 <= k < updates.len() ==> !adds_at((#[trigger] updates[k]).updates, name),
    ensures
        !in_use(served(z, updates), name),
    decreases updates.len(),
{
    if updates.len() > 0 {
        let u = updates[0];
        let rest = updates.drop_first();
        lemma_updated_unused(z, u.updates, name);
        assert forall|k: int| 0 <= k < rest.len() implies !adds_at(
            (#[trigger] rest[k]).updates,
            name,
        ) by {
            assert(rest[k] == updates[k + 1]);
        }
        lemma_served_unused(
            if accepts(z, u) {
                after(z, u)
            } else {
                z
            },
            rest,
            name,
        );
    }
}

/// There stay records with a name and a type while none of them is deleted.
pub proof fn lemma_updated_kept(
    z: Set<RecordView>,
    updates: Seq<RecordView>,
    name: Seq<Seq<u8>>,
    kind: u16,
)
    requires
        has_set(z, name, kind),
        !clears_at(updates, name, kind),
    ensures
        has_set(updated(z, updates), name, kind),
    decreases updates.len(),
{
    if updates.len() > 0 {
        let u = updates[0];
        let rest = updates.drop_first();
        let z1 = updated_by(z, u);
        let r = choose|r: RecordView| #[trigger] z.contains(r) && in_set(r, name, kind);
        assert(has_set(z1, name, kind)) by {
            if !z1.contains(r) {
                assert(owned(u, name));
                assert(z1.contains(u) && in_set(u, name, kind));
            }
        }
        assert(!clears_at(rest, name, kind)) by {
            if clears_at(rest, name, kind) {
                let i = choose|i: int|
                    0 <= i < rest.len() && owned(#[trigger] rest[i], name) && {
                        ||| rest[i].class == CLASS_ANY && crate::record::kind_of(rest[i].data)
                            == TYPE_ANY
                        ||| (rest[i].class == CLASS_ANY || rest[i].class == CLASS_NONE)
                            && crate::record::kind_of(rest[i].data) == kind
                    };
                assert(rest[i] == updates[i + 1]);
            }
        }
        lemma_updated_kept(z1, rest, name, kind);
    }
}

/// There stay records with a name and a type while no update deletes any.
pub proof fn lemma_served_kept(
    z: Set<RecordView>,
    updates: Seq<UpdateView>,
    name: Seq<Seq<u8>>,
    kind: u16,
)
    requires
        has_set(z, name, kind),
        forall|k: int|
            0 <= k < updates.len() ==> !clears_at((#[trigger] updates[k]).updates, name, kind),
    ensures
        has_set(served(z, updates), name, kind),
    decreases updates.len(),
{
    if updates.len() > 0 {
        let u = updates[0];
        let rest = updates.drop_first();
        lemma_updated_kept(z, u.updates, name, kind);
        assert forall|k: int| 0 <= k < rest.len() implies !clears_at(
            (#[trigger] rest[k]).updates,
            name,
            kind,
        ) by {
            assert(rest[k] == updates[k + 1]);
        }
        lemma_served_kept(
            if accepts(z, u) {
                after(z, u)
            } else {
                z
            },
            rest,
            name,
            kind,
        );
    }
}

/// The records with a name and a type stay as they are while nothing has to do
/// with them.
pub proof fn lemma_updated_untouched(
    z: Set<RecordView>,
    updates: Seq<RecordView>,
    name: Seq<Seq<u8>>,
    kind: u16,
)
    requires
        !touches(updates, name, kind),
    ensures
        forall|r: RecordView|
            in_set(r, name, kind) ==> (#[trigger] updated(z, updates).contains(r) <==> z.contains(
                r,
            )),
    decreases updates.len(),
{
    if updates.len() > 0 {
        let u = updates[0];
        let rest = updates.drop_first();
        let z1 = updated_by(z, u);
        assert(!touches(rest, name, kind)) by {
            if touches(rest, name, kind) {
                let i = choose|i: int|
                    0 <= i < rest.len() && owned(#[trigger] rest[i], name) && {
                        ||| crate::record::kind_of(rest[i].data) == kind
                        ||| crate::record::kind_of(rest[i].data) == TYPE_ANY
                    };
                assert(rest[i] == updates[i + 1]);
            }
        }
        lemma_updated_untouched(z1, rest, name, kind);
        assert forall|r: RecordView| in_set(r, name, kind) implies (#[trigger] updated(
            z,
            updates,
        ).contains(r) <==> z.contains(r)) by {
            assert(updated(z1, rest).contains(r) <==> z1.contains(r));
            assert(z1.contains(r) <==> z.contains(r));
        }
    }
}

/// An update that asks for the absence of records that are there is not carried
/// out.
pub proof fn lemma_wanted_absent(
    z: Set<RecordView>,
    u: UpdateView,
    name: Seq<Seq<u8>>,
    kind: u16,
)
    requires
        kind != TYPE_ANY,
        has_set(z, name, kind),
        wants_absent(u, name, kind),
    ensures
        !accepts(z, u),
{
    let i = choose|i: int|
        0 <= i < u.prerequisites.len() && (#[trigger] u.prerequisites[i]).class == CLASS_NONE
            && in_set(u.prerequisites[i], name, kind);
    let r = choose|r: RecordView| #[trigger] z.contains(r) && in_set(r, name, kind);
    assert(z.contains(r) && in_set(r, u.prerequisites[i].name, kind));
    assert(!holds(z, u.prerequisites, u.prerequisites[i]));
}

} // verus!
