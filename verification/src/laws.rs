//! What holds of the service as a whole.

use vstd::prelude::*;

use crate::config::ConfigView;
use crate::error::ErrorView;
use crate::exchange::{ResponseCode, UpdateReply};
use crate::message::UpdateView;
use crate::record::{
    AddressView, DataView, RecordView, CLASS_IN, RECORD_TTL, TYPE_A, TYPE_AAAA, TYPE_ANY,
    TYPE_CNAME, TYPE_PTR, TYPE_TXT,
};
use crate::reply::{
    ReplyView, STATUS_BAD_REQUEST, STATUS_CONFLICT, STATUS_OK, STATUS_UNAUTHORIZED,
};
use crate::session::{ChangeView, LookupView, OutcomeView, StepView};

verus! {

/// What a zone holds once a hostname has been created: what it held before, the
/// marker and the credential, where neither name is an alias.
pub proof fn law_creation_adds_two_records(
    z: Set<RecordView>,
    zone: Seq<Seq<u8>>,
    ptr_name: Seq<Seq<u8>>,
    host: Seq<Seq<u8>>,
)
    requires
        crate::server::accepts(z, crate::message::creation(zone, ptr_name, host)),
        !crate::server::has_set(z, host, TYPE_CNAME),
        !crate::server::has_set(z, ptr_name, TYPE_CNAME),
    ensures
        crate::server::after(z, crate::message::creation(zone, ptr_name, host)) == z.insert(
            crate::message::internet(host, RECORD_TTL, crate::record::marker_data()),
        ).insert(crate::message::internet(ptr_name, RECORD_TTL, DataView::Ptr(host))),
{
    let u = crate::message::creation(zone, ptr_name, host);
    let marker = crate::message::internet(host, RECORD_TTL, crate::record::marker_data());
    let ptr = crate::message::internet(ptr_name, RECORD_TTL, DataView::Ptr(host));
    assert(crate::server::holds(z, u.prerequisites, u.prerequisites[0]));
    assert(crate::server::holds(z, u.prerequisites, u.prerequisites[1]));
    crate::server::lemma_two_updates(z, marker, ptr);
    let z1 = crate::server::updated_by(z, marker);
    assert(z1 =~= z.insert(marker));
    assert(!crate::server::has_set(z1, ptr_name, TYPE_CNAME));
    assert(crate::server::updated_by(z1, ptr) =~= z1.insert(ptr));
}

/// The token that creating a hostname hands out is good for changing that
/// hostname: with the hostname and its credential in the zone, the server's
/// answers lead to the update that the change takes, the server carries that
/// update out, and the client is told the name that was created.
pub proof fn law_created_token_is_good(
    c: ConfigView,
    hostname: Seq<char>,
    bytes: Seq<u8>,
    host: Seq<Seq<u8>>,
    ptr_name: Seq<Seq<u8>>,
    zone: Seq<Seq<u8>>,
    z: Set<RecordView>,
    credentials: Seq<RecordView>,
    markers: Seq<RecordView>,
    change: ChangeView,
)
    requires
        crate::name::is_absolute(c.zone),
        crate::name::is_hostname(hostname),
        bytes.len() == 16,
        crate::config::named(crate::config::hostname_text(c, hostname)) == Ok::<
            Seq<Seq<u8>>,
            ErrorView,
        >(host),
        crate::config::named(
            crate::config::ptr_text(c, crate::credential::hex_text(bytes)),
        ) == Ok::<Seq<Seq<u8>>, ErrorView>(ptr_name),
        crate::config::named(c.zone) == Ok::<Seq<Seq<u8>>, ErrorView>(zone),
        crate::server::accepts(z, crate::message::creation(zone, ptr_name, host)),
        crate::server::answers(
            crate::server::after(z, crate::message::creation(zone, ptr_name, host)),
            ptr_name,
            TYPE_PTR,
            credentials,
        ),
        crate::server::answers(
            crate::server::after(z, crate::message::creation(zone, ptr_name, host)),
            host,
            TYPE_TXT,
            markers,
        ),
    ensures
        ({
            let token = crate::credential::hex_text(bytes);
            let first = LookupView { ptr_name, change, target: None };
            let second = LookupView { ptr_name, change, target: Some((host, zone)) };
            let last = crate::session::submission(zone, ptr_name, host, change);
            &&& crate::session::on_create(c, hostname, bytes) == StepView::Send(
                crate::session::SubmissionView {
                    message: crate::message::creation(zone, ptr_name, host),
                    outcome: crate::session::OutcomeView::Created(token),
                },
            )
            &&& crate::session::changing(c, token, change) == StepView::Query(first)
            &&& crate::session::looked_up(c, first, Ok(credentials)) == StepView::Query(second)
            &&& crate::session::looked_up(c, second, Ok(markers)) == StepView::Send(last)
            &&& crate::server::accepts(
                crate::server::after(z, crate::message::creation(zone, ptr_name, host)),
                last.message,
            )
            &&& crate::session::success(last.outcome).hostname == Some(
                crate::config::hostname_text(c, hostname),
            )
        }),
{
    let u = crate::message::creation(zone, ptr_name, host);
    let marker = crate::message::internet(host, RECORD_TTL, crate::record::marker_data());
    let ptr = crate::message::internet(ptr_name, RECORD_TTL, DataView::Ptr(host));
    let z2 = crate::server::after(z, u);
    crate::credential::lemma_hex_text_is_token(bytes);
    crate::session::lemma_hostname_in_zone(c, hostname);
    crate::server::lemma_two_updates(z, marker, ptr);
    assert(forall|r: RecordView| #[trigger]
        z.contains(r) && crate::record::kind_of(r.data) == TYPE_CNAME ==> z2.contains(r));
    assert(!crate::server::has_set(z, host, TYPE_CNAME));
    assert(!crate::server::has_set(z, ptr_name, TYPE_CNAME));
    law_creation_adds_two_records(z, zone, ptr_name, host);
    assert(crate::server::holds(z, u.prerequisites, u.prerequisites[0]));
    assert(crate::server::holds(z, u.prerequisites, u.prerequisites[1]));
    assert(z2.contains(marker) && z2.contains(ptr));
    crate::server::lemma_single_answer(z2, ptr_name, TYPE_PTR, ptr, credentials);
    crate::server::lemma_single_answer(z2, host, TYPE_TXT, marker, markers);
    lemma_evidence_meets_prerequisites(z2, zone, ptr_name, host, change, credentials, markers);
}

/// Whether an update leaves a created hostname its credential and its marker: it
/// has to do with neither of them, or it asks that one of them be absent, so
/// that the server does not carry it out.
pub open spec fn spares(u: UpdateView, ptr_name: Seq<Seq<u8>>, host: Seq<Seq<u8>>) -> bool {
    ||| !crate::server::touches(u.updates, ptr_name, TYPE_PTR) && !crate::server::touches(
        u.updates,
        host,
        TYPE_TXT,
    )
    ||| crate::server::wants_absent(u, ptr_name, TYPE_PTR)
    ||| crate::server::wants_absent(u, host, TYPE_TXT)
}

/// Of the service's updates all creations and all changes of addresses leave
/// every other hostname, and their own, its credential and its marker; a
/// deletion does where it is for other names.
pub proof fn law_only_deletion_takes_credentials(
    zone: Seq<Seq<u8>>,
    other_ptr_name: Seq<Seq<u8>>,
    other_host: Seq<Seq<u8>>,
    address: AddressView,
    ptr_name: Seq<Seq<u8>>,
    host: Seq<Seq<u8>>,
)
    ensures
        spares(crate::message::creation(zone, other_ptr_name, other_host), ptr_name, host),
        spares(
            crate::message::readdressing(zone, other_ptr_name, other_host, address),
            ptr_name,
            host,
        ),
        spares(crate::message::removal(zone, other_ptr_name, other_host), ptr_name, host) <==> {
            &&& crate::name::lower_name(other_ptr_name) != crate::name::lower_name(ptr_name)
            &&& crate::name::lower_name(other_ptr_name) != crate::name::lower_name(host)
            &&& crate::name::lower_name(other_host) != crate::name::lower_name(ptr_name)
            &&& crate::name::lower_name(other_host) != crate::name::lower_name(host)
        },
{
    let u = crate::message::creation(zone, other_ptr_name, other_host);
    assert(u.prerequisites[0] == crate::message::absent(other_host, TYPE_TXT));
    assert(u.prerequisites[1] == crate::message::absent(other_ptr_name, TYPE_PTR));
    let v = crate::message::removal(zone, other_ptr_name, other_host);
    assert(v.updates[0] == crate::message::cleared(other_host, TYPE_ANY));
    assert(v.updates[1] == crate::message::cleared(other_ptr_name, TYPE_ANY));
}

/// A credential and a marker stay as they are while every update spares them.
proof fn lemma_served_spared(
    z: Set<RecordView>,
    later: Seq<UpdateView>,
    ptr_name: Seq<Seq<u8>>,
    host: Seq<Seq<u8>>,
)
    requires
        crate::server::has_set(z, ptr_name, TYPE_PTR),
        crate::server::has_set(z, host, TYPE_TXT),
        forall|k: int| 0 <= k < later.len() ==> spares(#[trigger] later[k], ptr_name, host),
    ensures
        forall|r: RecordView|
            crate::server::in_set(r, ptr_name, TYPE_PTR) || crate::server::in_set(r, host, TYPE_TXT)
                ==> (#[trigger] crate::server::served(z, later).contains(r) <==> z.contains(r)),
    decreases later.len(),
{
    if later.len() > 0 {
        let u = later[0];
        let rest = later.drop_first();
        let z1 = if crate::server::accepts(z, u) {
            crate::server::after(z, u)
        } else {
            z
        };
        assert(spares(later[0], ptr_name, host));
        if crate::server::accepts(z, u) {
            if crate::server::wants_absent(u, ptr_name, TYPE_PTR) {
                crate::server::lemma_wanted_absent(z, u, ptr_name, TYPE_PTR);
            }
            if crate::server::wants_absent(u, host, TYPE_TXT) {
                crate::server::lemma_wanted_absent(z, u, host, TYPE_TXT);
            }
            crate::server::lemma_updated_untouched(z, u.updates, ptr_name, TYPE_PTR);
            crate::server::lemma_updated_untouched(z, u.updates, host, TYPE_TXT);
        }
        assert(forall|r: RecordView|
            crate::server::in_set(r, ptr_name, TYPE_PTR) || crate::server::in_set(r, host, TYPE_TXT)
                ==> (#[trigger] z1.contains(r) <==> z.contains(r)));
        let p = choose|r: RecordView| #[trigger]
            z.contains(r) && crate::server::in_set(r, ptr_name, TYPE_PTR);
        let m = choose|r: RecordView| #[trigger]
            z.contains(r) && crate::server::in_set(r, host, TYPE_TXT);
        assert(z1.contains(p) && z1.contains(m));
        assert forall|k: int| 0 <= k < rest.len() implies spares(
            #[trigger] rest[k],
            ptr_name,
            host,
        ) by {
            assert(rest[k] == later[k + 1]);
        }
        lemma_served_spared(z1, rest, ptr_name, host);
        assert forall|r: RecordView|
            crate::server::in_set(r, ptr_name, TYPE_PTR) || crate::server::in_set(
                r,
                host,
                TYPE_TXT,
            ) implies (#[trigger] crate::server::served(z, later).contains(r) <==> z.contains(
            r,
        )) by {
            assert(crate::server::served(z1, rest).contains(r) <==> z1.contains(r));
        }
    }
}

/// The token that creating a hostname hands out stays good for changing that
/// hostname, whatever requests the server serves in between, while each of them
/// spares the credential and the marker: the server's answers lead to the
/// update that the change takes, the server carries that update out, and the
/// client is told the name that was created. An alias at one of the names would
/// keep the server from storing the marker or the credential.
pub proof fn law_created_token_stays_good(
    c: ConfigView,
    hostname: Seq<char>,
    bytes: Seq<u8>,
    host: Seq<Seq<u8>>,
    ptr_name: Seq<Seq<u8>>,
    zone: Seq<Seq<u8>>,
    z: Set<RecordView>,
    later: Seq<UpdateView>,
    credentials: Seq<RecordView>,
    markers: Seq<RecordView>,
    change: ChangeView,
)
    requires
        crate::name::is_absolute(c.zone),
        crate::name::is_hostname(hostname),
        bytes.len() == 16,
        crate::config::named(crate::config::hostname_text(c, hostname)) == Ok::<
            Seq<Seq<u8>>,
            ErrorView,
        >(host),
        crate::config::named(
            crate::config::ptr_text(c, crate::credential::hex_text(bytes)),
        ) == Ok::<Seq<Seq<u8>>, ErrorView>(ptr_name),
        crate::config::named(c.zone) == Ok::<Seq<Seq<u8>>, ErrorView>(zone),
        crate::server::accepts(z, crate::message::creation(zone, ptr_name, host)),
        !crate::server::has_set(z, host, TYPE_CNAME),
        !crate::server::has_set(z, ptr_name, TYPE_CNAME),
        forall|k: int| 0 <= k < later.len() ==> spares(#[trigger] later[k], ptr_name, host),
        crate::server::answers(
            crate::server::served(
                crate::server::after(z, crate::message::creation(zone, ptr_name, host)),
                later,
            ),
            ptr_name,
            TYPE_PTR,
            credentials,
        ),
        crate::server::answers(
            crate::server::served(
                crate::server::after(z, crate::message::creation(zone, ptr_name, host)),
                later,
            ),
            host,
            TYPE_TXT,
            markers,
        ),
    ensures
        ({
            let token = crate::credential::hex_text(bytes);
            let first = LookupView { ptr_name, change, target: None };
            let second = LookupView { ptr_name, change, target: Some((host, zone)) };
            let last = crate::session::submission(zone, ptr_name, host, change);
            &&& crate::session::changing(c, token, change) == StepView::Query(first)
            &&& crate::session::looked_up(c, first, Ok(credentials)) == StepView::Query(second)
            &&& crate::session::looked_up(c, second, Ok(markers)) == StepView::Send(last)
            &&& crate::server::accepts(
                crate::server::served(
                    crate::server::after(z, crate::message::creation(zone, ptr_name, host)),
                    later,
                ),
                last.message,
            )
            &&& crate::session::success(last.outcome).hostname == Some(
                crate::config::hostname_text(c, hostname),
            )
        }),
{
    let marker = crate::message::internet(host, RECORD_TTL, crate::record::marker_data());
    let ptr = crate::message::internet(ptr_name, RECORD_TTL, DataView::Ptr(host));
    let z1 = crate::server::after(z, crate::message::creation(zone, ptr_name, host));
    let z2 = crate::server::served(z1, later);
    crate::credential::lemma_hex_text_is_token(bytes);
    crate::session::lemma_hostname_in_zone(c, hostname);
    law_creation_needs_free_names(z, zone, ptr_name, host);
    law_creation_adds_two_records(z, zone, ptr_name, host);
    assert(z1.contains(marker) && crate::server::in_set(marker, host, TYPE_TXT));
    assert(z1.contains(ptr) && crate::server::in_set(ptr, ptr_name, TYPE_PTR));
    lemma_served_spared(z1, later, ptr_name, host);
    assert(z2.contains(marker) && z2.contains(ptr));
    crate::server::lemma_single_answer(z2, ptr_name, TYPE_PTR, ptr, credentials);
    crate::server::lemma_single_answer(z2, host, TYPE_TXT, marker, markers);
    lemma_evidence_meets_prerequisites(z2, zone, ptr_name, host, change, credentials, markers);
}

/// The server carries out a change just where the evidence for it stands: the
/// credential's only pointer leads to the hostname, and the hostname's only
/// text is the marker. So an update that was authorized by older answers goes
/// through only if the answers would still be the same.
pub proof fn law_prerequisites_are_the_evidence(
    z: Set<RecordView>,
    zone: Seq<Seq<u8>>,
    ptr_name: Seq<Seq<u8>>,
    host: Seq<Seq<u8>>,
    change: ChangeView,
    credentials: Seq<RecordView>,
    markers: Seq<RecordView>,
)
    requires
        crate::server::is_zone(z),
        crate::server::answers(z, ptr_name, TYPE_PTR, credentials),
        crate::server::answers(z, host, TYPE_TXT, markers),
    ensures
        crate::server::accepts(
            z,
            crate::session::submission(zone, ptr_name, host, change).message,
        ) <==> {
            &&& crate::session::is_credential(ptr_name, credentials)
            &&& crate::name::lower_name(credentials[0].data->Ptr_0) == crate::name::lower_name(host)
            &&& crate::session::is_marked(host, markers)
        },
{
    let u = crate::session::submission(zone, ptr_name, host, change).message;
    let p = crate::message::authorization(ptr_name, host);
    assert(u.prerequisites == p);
    if crate::server::accepts(z, u) {
        assert(crate::server::holds(z, p, p[0]));
        assert(crate::server::holds(z, p, p[1]));
        crate::server::lemma_matched_answer(z, p, 0, credentials);
        crate::server::lemma_matched_answer(z, p, 1, markers);
    } else if crate::session::is_credential(ptr_name, credentials) && crate::name::lower_name(
        credentials[0].data->Ptr_0,
    ) == crate::name::lower_name(host) && crate::session::is_marked(host, markers) {
        lemma_evidence_meets_prerequisites(z, zone, ptr_name, host, change, credentials, markers);
    }
}

/// Where the evidence for a change stands in the zone, the server carries the
/// change out.
proof fn lemma_evidence_meets_prerequisites(
    z: Set<RecordView>,
    zone: Seq<Seq<u8>>,
    ptr_name: Seq<Seq<u8>>,
    host: Seq<Seq<u8>>,
    change: ChangeView,
    credentials: Seq<RecordView>,
    markers: Seq<RecordView>,
)
    requires
        crate::server::answers(z, ptr_name, TYPE_PTR, credentials),
        crate::server::answers(z, host, TYPE_TXT, markers),
        crate::session::is_credential(ptr_name, credentials),
        crate::name::lower_name(credentials[0].data->Ptr_0) == crate::name::lower_name(host),
        crate::session::is_marked(host, markers),
    ensures
        crate::server::accepts(
            z,
            crate::session::submission(zone, ptr_name, host, change).message,
        ),
{
    let u = crate::session::submission(zone, ptr_name, host, change).message;
    let p = crate::message::authorization(ptr_name, host);
    assert(u.prerequisites == p);
    assert(credentials.contains(credentials[0]));
    assert(markers.contains(markers[0]));
    assert forall|r: RecordView| #[trigger]
        z.contains(r) && crate::server::in_set(r, ptr_name, TYPE_PTR) implies r
        == credentials[0] by {
        assert(credentials.contains(r));
    }
    assert forall|r: RecordView| #[trigger]
        z.contains(r) && crate::server::in_set(r, host, TYPE_TXT) implies r == markers[0] by {
        assert(markers.contains(r));
    }
    crate::server::lemma_record_matches(z, p, 0, credentials[0]);
    crate::server::lemma_record_matches(z, p, 1, markers[0]);
}

/// An update keeps a zone free of records held twice.
pub proof fn law_zone_stays_a_zone(z: Set<RecordView>, u: UpdateView)
    requires
        crate::server::is_zone(z),
    ensures
        crate::server::is_zone(crate::server::after(z, u)),
{
    crate::server::lemma_updated_zone(z, u.updates);
}

/// A hostname is created just where it has no text records and no pointer has
/// the credential's name.
pub proof fn law_creation_needs_free_names(
    z: Set<RecordView>,
    zone: Seq<Seq<u8>>,
    ptr_name: Seq<Seq<u8>>,
    host: Seq<Seq<u8>>,
)
    ensures
        crate::server::accepts(z, crate::message::creation(zone, ptr_name, host)) <==> {
            &&& !crate::server::has_set(z, host, TYPE_TXT)
            &&& !crate::server::has_set(z, ptr_name, TYPE_PTR)
        },
{
    let u = crate::message::creation(zone, ptr_name, host);
    assert(u.prerequisites[0] == crate::message::absent(host, TYPE_TXT));
    assert(u.prerequisites[1] == crate::message::absent(ptr_name, TYPE_PTR));
    if crate::server::accepts(z, u) {
        assert(crate::server::holds(z, u.prerequisites, u.prerequisites[0]));
        assert(crate::server::holds(z, u.prerequisites, u.prerequisites[1]));
    }
}

/// A hostname that has text records, its marker among them, is not created
/// again, however it is spelled and whoever asks: no second token is good for
/// it.
pub proof fn law_marked_hostname_is_taken(
    z: Set<RecordView>,
    zone: Seq<Seq<u8>>,
    ptr_name: Seq<Seq<u8>>,
    host: Seq<Seq<u8>>,
    spelling: Seq<Seq<u8>>,
)
    requires
        crate::server::has_set(z, host, TYPE_TXT),
        crate::name::lower_name(spelling) == crate::name::lower_name(host),
    ensures
        !crate::server::accepts(z, crate::message::creation(zone, ptr_name, spelling)),
{
    law_creation_needs_free_names(z, zone, ptr_name, spelling);
    let r = choose|r: RecordView| #[trigger]
        z.contains(r) && crate::server::in_set(r, host, TYPE_TXT);
    assert(z.contains(r) && crate::server::in_set(r, spelling, TYPE_TXT));
}

/// A hostname that was created stays taken, however it is spelled, while no
/// update deletes its text records. An alias at one of the names would keep the
/// server from storing the marker or the credential.
pub proof fn law_created_hostname_stays_taken(
    z: Set<RecordView>,
    zone: Seq<Seq<u8>>,
    ptr_name: Seq<Seq<u8>>,
    host: Seq<Seq<u8>>,
    later: Seq<UpdateView>,
    other_ptr_name: Seq<Seq<u8>>,
    spelling: Seq<Seq<u8>>,
)
    requires
        crate::server::accepts(z, crate::message::creation(zone, ptr_name, host)),
        !crate::server::has_set(z, host, TYPE_CNAME),
        !crate::server::has_set(z, ptr_name, TYPE_CNAME),
        forall|k: int|
            0 <= k < later.len() ==> !crate::server::clears_at(
                (#[trigger] later[k]).updates,
                host,
                TYPE_TXT,
            ),
        crate::name::lower_name(spelling) == crate::name::lower_name(host),
    ensures
        !crate::server::accepts(
            crate::server::served(
                crate::server::after(z, crate::message::creation(zone, ptr_name, host)),
                later,
            ),
            crate::message::creation(zone, other_ptr_name, spelling),
        ),
{
    let z2 = crate::server::after(z, crate::message::creation(zone, ptr_name, host));
    law_creation_adds_two_records(z, zone, ptr_name, host);
    let marker = crate::message::internet(host, RECORD_TTL, crate::record::marker_data());
    assert(z2.contains(marker) && crate::server::in_set(marker, host, TYPE_TXT));
    crate::server::lemma_served_kept(z2, later, host, TYPE_TXT);
    law_marked_hostname_is_taken(
        crate::server::served(z2, later),
        zone,
        other_ptr_name,
        host,
        spelling,
    );
}

/// Of the service's updates only a deletion deletes text records, and only those
/// at its own two names.
pub proof fn law_only_deletion_clears_markers(
    zone: Seq<Seq<u8>>,
    ptr_name: Seq<Seq<u8>>,
    host: Seq<Seq<u8>>,
    address: AddressView,
    name: Seq<Seq<u8>>,
)
    ensures
        !crate::server::clears_at(
            crate::message::creation(zone, ptr_name, host).updates,
            name,
            TYPE_TXT,
        ),
        !crate::server::clears_at(
            crate::message::readdressing(zone, ptr_name, host, address).updates,
            name,
            TYPE_TXT,
        ),
        crate::server::clears_at(
            crate::message::removal(zone, ptr_name, host).updates,
            name,
            TYPE_TXT,
        ) <==> {
            ||| crate::name::lower_name(name) == crate::name::lower_name(host)
            ||| crate::name::lower_name(name) == crate::name::lower_name(ptr_name)
        },
{
    let u = crate::message::removal(zone, ptr_name, host).updates;
    assert(u[0] == crate::message::cleared(host, TYPE_ANY));
    assert(u[1] == crate::message::cleared(ptr_name, TYPE_ANY));
}

/// Of the service's updates only a creation adds anything at the name of a
/// credential, and only at its own.
pub proof fn law_only_creation_adds_credentials(
    zone: Seq<Seq<u8>>,
    ptr_name: Seq<Seq<u8>>,
    host: Seq<Seq<u8>>,
    address: AddressView,
    name: Seq<Seq<u8>>,
)
    ensures
        crate::server::adds_at(crate::message::creation(zone, ptr_name, host).updates, name) <==> {
            ||| crate::name::lower_name(name) == crate::name::lower_name(host)
            ||| crate::name::lower_name(name) == crate::name::lower_name(ptr_name)
        },
        crate::server::adds_at(
            crate::message::readdressing(zone, ptr_name, host, address).updates,
            name,
        ) <==> crate::name::lower_name(name) == crate::name::lower_name(host),
        !crate::server::adds_at(crate::message::removal(zone, ptr_name, host).updates, name),
{
    let u = crate::message::creation(zone, ptr_name, host).updates;
    assert(u[0].name == host && u[1].name == ptr_name);
    let v = crate::message::readdressing(zone, ptr_name, host, address).updates;
    assert(v[1].name == host && v[1].class == CLASS_IN);
}

/// The answer to a request for a hostname that the server finds taken is that of
/// a conflict.
pub proof fn law_taken_hostname_is_a_conflict(
    z: Set<RecordView>,
    zone: Seq<Seq<u8>>,
    ptr_name: Seq<Seq<u8>>,
    host: Seq<Seq<u8>>,
    outcome: OutcomeView,
    code: ResponseCode,
)
    requires
        !crate::server::accepts(z, crate::message::creation(zone, ptr_name, host)),
        crate::server::responds(z, crate::message::creation(zone, ptr_name, host), code.code),
    ensures
        crate::session::concluded(
            outcome,
            crate::exchange::update_result(UpdateReply::Answered(code)),
        ) == crate::reply::refusal(STATUS_CONFLICT, "DNS name or record already exists"@),
{
    let p = crate::message::creation(zone, ptr_name, host).prerequisites;
    assert(crate::server::refusal_code(p[0]) == crate::exchange::YX_RRSET);
    assert(crate::server::refusal_code(p[1]) == crate::exchange::YX_RRSET);
}

/// The answer to a change whose evidence is gone by the time that the server
/// takes the update is that of a missing permission.
pub proof fn law_lost_evidence_is_denied(
    z: Set<RecordView>,
    zone: Seq<Seq<u8>>,
    ptr_name: Seq<Seq<u8>>,
    host: Seq<Seq<u8>>,
    change: ChangeView,
    code: ResponseCode,
)
    requires
        !crate::server::accepts(
            z,
            crate::session::submission(zone, ptr_name, host, change).message,
        ),
        crate::server::responds(
            z,
            crate::session::submission(zone, ptr_name, host, change).message,
            code.code,
        ),
    ensures
        crate::session::concluded(
            crate::session::submission(zone, ptr_name, host, change).outcome,
            crate::exchange::update_result(UpdateReply::Answered(code)),
        ) == crate::reply::refusal(
            STATUS_UNAUTHORIZED,
            "DNS authorization prerequisite no longer exists"@,
        ),
{
    let p = crate::message::authorization(ptr_name, host);
    assert(crate::session::submission(zone, ptr_name, host, change).message.prerequisites == p);
    assert(crate::server::refusal_code(p[0]) == crate::exchange::NX_RRSET);
    assert(crate::server::refusal_code(p[1]) == crate::exchange::NX_RRSET);
}

/// An address replaces the hostname's records of its own family and changes
/// nothing else, the records of the other family among it, where the hostname
/// is no alias.
pub proof fn law_address_replaces_one_family(
    z: Set<RecordView>,
    zone: Seq<Seq<u8>>,
    ptr_name: Seq<Seq<u8>>,
    host: Seq<Seq<u8>>,
    address: AddressView,
)
    requires
        !crate::server::has_set(z, host, TYPE_CNAME),
    ensures
        ({
            let data = crate::record::address_data(address);
            let z2 = crate::server::after(
                z,
                crate::message::readdressing(zone, ptr_name, host, address),
            );
            forall|r: RecordView| #[trigger]
                z2.contains(r) <==> (if crate::server::in_set(
                    r,
                    host,
                    crate::record::kind_of(data),
                ) {
                    r == crate::message::internet(host, RECORD_TTL, data)
                } else {
                    z.contains(r)
                })
        }),
{
    let data = crate::record::address_data(address);
    let kind = crate::record::kind_of(data);
    let clear = crate::message::cleared(host, kind);
    let add = crate::message::internet(host, RECORD_TTL, data);
    crate::server::lemma_two_updates(z, clear, add);
    let z1 = crate::server::updated_by(z, clear);
    assert(forall|r: RecordView| #[trigger]
        z1.contains(r) <==> z.contains(r) && !crate::server::in_set(r, host, kind));
    assert(!crate::server::has_set(z1, host, TYPE_CNAME));
}

/// A deletion leaves no record at the hostname and none at the credential's
/// name, and changes nothing else.
pub proof fn law_deletion_clears_two_names(
    z: Set<RecordView>,
    zone: Seq<Seq<u8>>,
    ptr_name: Seq<Seq<u8>>,
    host: Seq<Seq<u8>>,
)
    ensures
        ({
            let z2 = crate::server::after(z, crate::message::removal(zone, ptr_name, host));
            forall|r: RecordView| #[trigger]
                z2.contains(r) <==> z.contains(r) && !crate::server::owned(r, host)
                    && !crate::server::owned(r, ptr_name)
        }),
{
    crate::server::lemma_two_updates(
        z,
        crate::message::cleared(host, TYPE_ANY),
        crate::message::cleared(ptr_name, TYPE_ANY),
    );
}

/// A token whose credential has no pointer is refused.
pub proof fn law_token_without_credential_is_refused(
    c: ConfigView,
    z: Set<RecordView>,
    ptr_name: Seq<Seq<u8>>,
    credentials: Seq<RecordView>,
    change: ChangeView,
)
    requires
        !crate::server::has_set(z, ptr_name, TYPE_PTR),
        crate::server::answers(z, ptr_name, TYPE_PTR, credentials),
    ensures
        crate::session::looked_up(
            c,
            LookupView { ptr_name, change, target: None },
            Ok(credentials),
        ) == StepView::Reply(crate::reply::refusal(STATUS_UNAUTHORIZED, "invalid token"@)),
{
    crate::server::lemma_no_answer(z, ptr_name, TYPE_PTR, credentials);
}

/// A token is of no use once the hostname has been deleted, right away and at
/// any later time: while no update adds anything at the credential's name, the
/// server has no pointer for it, and every further change is refused.
pub proof fn law_deleted_token_stays_refused(
    c: ConfigView,
    z: Set<RecordView>,
    zone: Seq<Seq<u8>>,
    ptr_name: Seq<Seq<u8>>,
    host: Seq<Seq<u8>>,
    later: Seq<UpdateView>,
    credentials: Seq<RecordView>,
    change: ChangeView,
)
    requires
        forall|k: int|
            0 <= k < later.len() ==> !crate::server::adds_at(
                (#[trigger] later[k]).updates,
                ptr_name,
            ),
        crate::server::answers(
            crate::server::served(
                crate::server::after(z, crate::message::removal(zone, ptr_name, host)),
                later,
            ),
            ptr_name,
            TYPE_PTR,
            credentials,
        ),
    ensures
        crate::session::looked_up(
            c,
            LookupView { ptr_name, change, target: None },
            Ok(credentials),
        ) == StepView::Reply(crate::reply::refusal(STATUS_UNAUTHORIZED, "invalid token"@)),
{
    let z2 = crate::server::after(z, crate::message::removal(zone, ptr_name, host));
    law_deletion_clears_two_names(z, zone, ptr_name, host);
    crate::server::lemma_served_unused(z2, later, ptr_name);
    law_token_without_credential_is_refused(
        c,
        crate::server::served(z2, later),
        ptr_name,
        credentials,
        change,
    );
}

/// The updates that give a hostname these addresses, one by one.
pub open spec fn readdressings(
    zone: Seq<Seq<u8>>,
    ptr_name: Seq<Seq<u8>>,
    host: Seq<Seq<u8>>,
    addresses: Seq<AddressView>,
) -> Seq<UpdateView> {
    addresses.map_values(|a: AddressView| crate::message::readdressing(zone, ptr_name, host, a))
}

/// Addresses change nothing but the hostname's address records.
proof fn lemma_readdressings(
    z: Set<RecordView>,
    zone: Seq<Seq<u8>>,
    ptr_name: Seq<Seq<u8>>,
    host: Seq<Seq<u8>>,
    addresses: Seq<AddressView>,
)
    requires
        !crate::server::has_set(z, host, TYPE_CNAME),
    ensures
        forall|r: RecordView|
            !crate::server::in_set(r, host, TYPE_A) && !crate::server::in_set(r, host, TYPE_AAAA)
                ==> (#[trigger] crate::server::served(
                z,
                readdressings(zone, ptr_name, host, addresses),
            ).contains(r) <==> z.contains(r)),
    decreases addresses.len(),
{
    let updates = readdressings(zone, ptr_name, host, addresses);
    if addresses.len() > 0 {
        let u = crate::message::readdressing(zone, ptr_name, host, addresses[0]);
        let z1 = if crate::server::accepts(z, u) {
            crate::server::after(z, u)
        } else {
            z
        };
        law_address_replaces_one_family(z, zone, ptr_name, host, addresses[0]);
        assert(updates.drop_first() =~= readdressings(
            zone,
            ptr_name,
            host,
            addresses.drop_first(),
        ));
        assert(!crate::server::has_set(z1, host, TYPE_CNAME));
        lemma_readdressings(z1, zone, ptr_name, host, addresses.drop_first());
        assert forall|r: RecordView|
            !crate::server::in_set(r, host, TYPE_A) && !crate::server::in_set(
                r,
                host,
                TYPE_AAAA,
            ) implies (#[trigger] crate::server::served(z, updates).contains(r) <==> z.contains(
            r,
        )) by {
            assert(crate::server::served(z1, updates.drop_first()).contains(r) <==> z1.contains(r));
            assert(z1.contains(r) <==> z.contains(r));
        }
    }
}

/// Deleting a hostname that was created undoes its creation and all that was
/// done with its addresses in between, where nothing was at either name before.
/// The server carries the deletion out.
pub proof fn law_deletion_undoes_creation(
    z: Set<RecordView>,
    zone: Seq<Seq<u8>>,
    ptr_name: Seq<Seq<u8>>,
    host: Seq<Seq<u8>>,
    addresses: Seq<AddressView>,
)
    requires
        !crate::server::in_use(z, host),
        !crate::server::in_use(z, ptr_name),
    ensures
        ({
            let z2 = crate::server::served(
                crate::server::after(z, crate::message::creation(zone, ptr_name, host)),
                readdressings(zone, ptr_name, host, addresses),
            );
            &&& crate::server::accepts(z, crate::message::creation(zone, ptr_name, host))
            &&& crate::server::accepts(z2, crate::message::removal(zone, ptr_name, host))
            &&& crate::server::after(z2, crate::message::removal(zone, ptr_name, host)) == z
        }),
{
    let marker = crate::message::internet(host, RECORD_TTL, crate::record::marker_data());
    let ptr = crate::message::internet(ptr_name, RECORD_TTL, DataView::Ptr(host));
    let z1 = crate::server::after(z, crate::message::creation(zone, ptr_name, host));
    law_creation_needs_free_names(z, zone, ptr_name, host);
    law_creation_adds_two_records(z, zone, ptr_name, host);
    assert(!crate::server::has_set(z1, host, TYPE_CNAME));
    lemma_readdressings(z1, zone, ptr_name, host, addresses);
    let z2 = crate::server::served(z1, readdressings(zone, ptr_name, host, addresses));
    let p = crate::message::authorization(ptr_name, host);
    assert(z2.contains(marker) && z2.contains(ptr));
    assert forall|r: RecordView| #[trigger]
        z2.contains(r) && crate::server::in_set(r, ptr_name, TYPE_PTR) implies r == ptr by {
        assert(z1.contains(r));
    }
    assert forall|r: RecordView| #[trigger]
        z2.contains(r) && crate::server::in_set(r, host, TYPE_TXT) implies r == marker by {
        assert(z1.contains(r));
    }
    crate::server::lemma_record_matches(z2, p, 0, ptr);
    crate::server::lemma_record_matches(z2, p, 1, marker);
    law_deletion_clears_two_names(z2, zone, ptr_name, host);
    let z3 = crate::server::after(z2, crate::message::removal(zone, ptr_name, host));
    assert forall|r: RecordView| z3.contains(r) <==> z.contains(r) by {
        if !crate::server::owned(r, host) && !crate::server::owned(r, ptr_name) {
            assert(z2.contains(r) <==> z1.contains(r));
        }
    }
    assert(z3 =~= z);
}

/// What a request with a token comes to, where these are the answers to its
/// first and its second question.
pub open spec fn course(
    c: ConfigView,
    token: Seq<char>,
    change: ChangeView,
    first: Result<Seq<RecordView>, ErrorView>,
    second: Result<Seq<RecordView>, ErrorView>,
) -> StepView {
    match crate::session::changing(c, token, change) {
        StepView::Query(lookup) => match crate::session::looked_up(c, lookup, first) {
            StepView::Query(lookup) => crate::session::looked_up(c, lookup, second),
            step => step,
        },
        step => step,
    }
}

/// Whether the answers allow the change: the token has the right form, its
/// credential is exactly one pointer, the pointer's target is a direct child of
/// the zone, and the target's only text is the marker.
pub open spec fn is_evidence(
    c: ConfigView,
    token: Seq<char>,
    first: Result<Seq<RecordView>, ErrorView>,
    second: Result<Seq<RecordView>, ErrorView>,
) -> bool {
    &&& crate::credential::is_token(token)
    &&& crate::config::named(crate::config::ptr_text(c, token)) matches Ok(ptr_name)
    &&& crate::config::named(c.zone) matches Ok(zone)
    &&& first matches Ok(credentials)
    &&& crate::session::is_credential(ptr_name, credentials)
    &&& crate::session::is_managed_name(zone, credentials[0].data->Ptr_0)
    &&& second matches Ok(markers)
    &&& crate::session::is_marked(credentials[0].data->Ptr_0, markers)
}

/// An update is sent for a token just where the answers allow it, and it is the
/// one that the change takes for the credential and its target.
pub proof fn law_change_needs_evidence(
    c: ConfigView,
    token: Seq<char>,
    change: ChangeView,
    first: Result<Seq<RecordView>, ErrorView>,
    second: Result<Seq<RecordView>, ErrorView>,
)
    ensures
        match course(c, token, change, first, second) {
            StepView::Send(submission) => {
                &&& is_evidence(c, token, first, second)
                &&& submission == crate::session::submission(
                    crate::config::named(c.zone)->Ok_0,
                    crate::config::named(crate::config::ptr_text(c, token))->Ok_0,
                    first->Ok_0[0].data->Ptr_0,
                    change,
                )
            },
            _ => !is_evidence(c, token, first, second),
        },
{
}

/// A request with a token asks the server two questions at most.
pub proof fn law_change_asks_at_most_twice(
    c: ConfigView,
    token: Seq<char>,
    change: ChangeView,
    first: Result<Seq<RecordView>, ErrorView>,
    second: Result<Seq<RecordView>, ErrorView>,
)
    ensures
        !(course(c, token, change, first, second) is Query),
{
}

/// A response of a request that was carried out has status 200, no error and
/// something to tell; any other response has another status and an error, and
/// tells nothing else.
pub open spec fn is_proper(r: ReplyView) -> bool {
    &&& r.status == STATUS_OK <==> r.error is None
    &&& r.error is Some <==> r.token is None && r.hostname is None && r.address is None
}

/// A request that ends before an update is sent has failed, and its response
/// says so.
pub proof fn law_early_responses_are_failures(
    c: ConfigView,
    hostname: Seq<char>,
    bytes: Seq<u8>,
    token: Seq<char>,
    address: Option<AddressView>,
    lookup: LookupView,
    answers: Result<Seq<RecordView>, ErrorView>,
)
    ensures
        crate::session::on_create(c, hostname, bytes) matches StepView::Reply(r) ==> is_proper(r)
            && r.error is Some,
        crate::session::on_delete(c, token) matches StepView::Reply(r) ==> is_proper(r)
            && r.error is Some,
        crate::session::on_update(c, token, address) matches StepView::Reply(r) ==> is_proper(r)
            && r.error is Some,
        crate::session::looked_up(c, lookup, answers) matches StepView::Reply(r) ==> is_proper(r)
            && r.error is Some,
{
}

/// The response to an update tells of success just where the server carried the
/// update out.
pub proof fn law_success_is_the_servers(outcome: OutcomeView, reply: UpdateReply)
    ensures
        ({
            let r = crate::session::concluded(outcome, crate::exchange::update_result(reply));
            &&& is_proper(r)
            &&& r.error is None <==> (reply matches UpdateReply::Answered(code) && code.code
                == crate::exchange::NO_ERROR)
        }),
{
}

/// Requests without what they need are turned away before anything is looked
/// at: a hostname that is none, a missing token, a missing address.
pub proof fn law_malformed_requests_are_turned_away(
    c: ConfigView,
    hostname: Seq<char>,
    bytes: Seq<u8>,
    token: Seq<char>,
    address: Option<AddressView>,
)
    ensures
        !crate::name::is_hostname(hostname) ==> crate::session::on_create(c, hostname, bytes)
            == StepView::Reply(
            crate::reply::refusal(STATUS_BAD_REQUEST, "hostname must be a valid DNS label"@),
        ),
        token.len() == 0 ==> crate::session::on_delete(c, token) == StepView::Reply(
            crate::reply::refusal(STATUS_BAD_REQUEST, "token is required"@),
        ),
        token.len() == 0 ==> crate::session::on_update(c, token, address) == StepView::Reply(
            crate::reply::refusal(STATUS_BAD_REQUEST, "token is required"@),
        ),
        token.len() > 0 ==> crate::session::on_update(c, token, None) == StepView::Reply(
            crate::reply::refusal(STATUS_BAD_REQUEST, "X-Real-IP must contain one IP address"@),
        ),
{
}

/// The name of a credential is its label, the label `_token` and the labels of
/// the zone, and it is never the name of a hostname.
pub proof fn law_credentials_are_apart_from_hostnames(
    c: ConfigView,
    token: Seq<char>,
    ptr_name: Seq<Seq<u8>>,
    zone: Seq<Seq<u8>>,
    host: Seq<Seq<u8>>,
)
    requires
        crate::name::is_absolute(c.zone),
    ensures
        crate::config::named(crate::config::ptr_text(c, token)) == Ok::<
            Seq<Seq<u8>>,
            ErrorView,
        >(ptr_name) && crate::config::named(c.zone) == Ok::<Seq<Seq<u8>>, ErrorView>(zone) ==> {
            &&& ptr_name == seq![
                crate::text::bytes_of(
                    crate::credential::base32_text(crate::credential::tag_of(c.secret, token)),
                ),
                crate::text::bytes_of("_token"@),
            ] + zone
            &&& crate::session::is_managed_name(zone, host) ==> crate::name::lower_name(host)
                != crate::name::lower_name(ptr_name)
        },
{
    crate::config::lemma_credential_name(c, crate::credential::tag_of(c.secret, token));
    assert(crate::name::lower_name(zone).len() == zone.len());
    assert(crate::name::lower_name(ptr_name).len() == ptr_name.len());
    assert(crate::name::lower_name(host).len() == host.len());
    assert(crate::name::lower_name(crate::name::base_of(host)).len() == crate::name::base_of(
        host,
    ).len());
}

/// A hostname has a name just where the zone does, is not the root and leaves
/// room for it; the name is its label and then the labels of the zone, and it
/// is printed as the hostname, a dot and the zone.
pub proof fn law_hostnames_have_names(c: ConfigView, hostname: Seq<char>, zone: Seq<Seq<u8>>)
    requires
        crate::name::is_absolute(c.zone),
        crate::name::is_hostname(hostname),
    ensures
        crate::config::named(c.zone) == Ok::<Seq<Seq<u8>>, ErrorView>(
            zone,
        ) ==> match crate::config::named(crate::config::hostname_text(c, hostname)) {
            Ok(host) => {
                &&& zone.len() > 0
                &&& 1 + hostname.len() + crate::name::encoded_len(zone) <= 255
                &&& host == seq![crate::text::bytes_of(hostname)] + zone
                &&& crate::name::text_of_name(host) == crate::config::hostname_text(c, hostname)
            },
            Err(_) => zone.len() == 0 || 1 + hostname.len() + crate::name::encoded_len(zone) > 255,
        },
        crate::config::named(c.zone) is Err ==> crate::config::named(
            crate::config::hostname_text(c, hostname),
        ) is Err,
{
    crate::session::lemma_hostname_plain(hostname);
    crate::session::lemma_no_backslash(c, hostname);
    crate::name::lemma_prefixed_name(hostname, c.zone);
    if crate::config::named(c.zone) is Ok && crate::config::named(
        crate::config::hostname_text(c, hostname),
    ) is Ok {
        crate::session::lemma_hostname_in_zone(c, hostname);
    }
}

/// Different random bytes make different tokens, and each of them has the form
/// of a token.
pub proof fn law_tokens_are_lossless(a: Seq<u8>, b: Seq<u8>)
    requires
        a.len() == 16,
        b.len() == 16,
    ensures
        crate::credential::is_token(crate::credential::hex_text(a)),
        crate::credential::hex_text(a) == crate::credential::hex_text(b) ==> a == b,
{
    crate::credential::lemma_hex_text_is_token(a);
    let x = crate::credential::hex_text(a);
    let y = crate::credential::hex_text(b);
    if x == y {
        assert forall|i: int| 0 <= i < 16 implies a[i] == b[i] by {
            assert(x[2 * i] == y[2 * i] && x[2 * i + 1] == y[2 * i + 1]);
            assert((2 * i) / 2 == i && (2 * i + 1) / 2 == i);
            assert(a[i] as int / 16 == b[i] as int / 16);
            assert(a[i] as int % 16 == b[i] as int % 16);
        }
        assert(a =~= b);
    }
}

/// Credentials whose tags differ have different labels.
pub proof fn law_labels_are_lossless(a: Seq<u8>, b: Seq<u8>)
    requires
        a.len() == b.len(),
        crate::credential::base32_text(a) == crate::credential::base32_text(b),
    ensures
        a == b,
{
    crate::credential::lemma_base32_injective(a, b);
}

/// Every record that an update of the service adds lives for sixty seconds.
pub proof fn law_added_records_live_a_minute(
    zone: Seq<Seq<u8>>,
    ptr_name: Seq<Seq<u8>>,
    host: Seq<Seq<u8>>,
    change: ChangeView,
)
    ensures
        ({
            let updates = crate::message::creation(zone, ptr_name, host).updates;
            forall|i: int|
                0 <= i < updates.len() && (#[trigger] updates[i]).class == CLASS_IN
                    ==> updates[i].ttl == 60
        }),
        ({
            let updates = crate::session::submission(zone, ptr_name, host, change).message.updates;
            forall|i: int|
                0 <= i < updates.len() && (#[trigger] updates[i]).class == CLASS_IN
                    ==> updates[i].ttl == 60
        }),
{
}

/// Whether an update changes nothing outside the zone that it is for.
pub open spec fn stays_inside(u: UpdateView) -> bool {
    forall|i: int|
        0 <= i < u.updates.len() ==> crate::name::zone_of(u.zone, (#[trigger] u.updates[i]).name)
}

/// The name of a credential lies in the zone.
proof fn lemma_credential_in_zone(c: ConfigView, token: Seq<char>)
    requires
        crate::name::is_absolute(c.zone),
        crate::config::named(crate::config::ptr_text(c, token)) is Ok,
        crate::config::named(c.zone) is Ok,
    ensures
        crate::name::zone_of(
            crate::config::named(c.zone)->Ok_0,
            crate::config::named(crate::config::ptr_text(c, token))->Ok_0,
        ),
{
    let zone = crate::config::named(c.zone)->Ok_0;
    let ptr_name = crate::config::named(crate::config::ptr_text(c, token))->Ok_0;
    crate::config::lemma_credential_name(c, crate::credential::tag_of(c.secret, token));
    assert(ptr_name.skip(2) =~= zone);
    crate::name::lemma_zone_of_suffix(zone, ptr_name);
}

/// No update that the service sends changes anything outside its zone.
pub proof fn law_updates_stay_in_the_zone(
    c: ConfigView,
    hostname: Seq<char>,
    bytes: Seq<u8>,
    token: Seq<char>,
    change: ChangeView,
    first: Result<Seq<RecordView>, ErrorView>,
    second: Result<Seq<RecordView>, ErrorView>,
)
    requires
        crate::name::is_absolute(c.zone),
    ensures
        crate::session::on_create(c, hostname, bytes) matches StepView::Send(s) ==> stays_inside(
            s.message,
        ) && crate::config::named(c.zone) == Ok::<Seq<Seq<u8>>, ErrorView>(s.message.zone),
        course(c, token, change, first, second) matches StepView::Send(s) ==> stays_inside(
            s.message,
        ) && crate::config::named(c.zone) == Ok::<Seq<Seq<u8>>, ErrorView>(s.message.zone),
{
    if crate::session::on_create(c, hostname, bytes) is Send {
        crate::session::lemma_hostname_plain(hostname);
        crate::session::lemma_name_in_zone(c, hostname);
        lemma_credential_in_zone(c, crate::credential::hex_text(bytes));
    }
    if course(c, token, change, first, second) is Send {
        law_change_needs_evidence(c, token, change, first, second);
        lemma_credential_in_zone(c, token);
        crate::name::lemma_zone_of_base(
            crate::config::named(c.zone)->Ok_0,
            first->Ok_0[0].data->Ptr_0,
        );
    }
}

/// What the DNS server sees of a token is its tag under the service's secret:
/// for tokens with the same tag it is sent the same update and asked the same
/// question.
pub proof fn law_tokens_stay_out_of_dns(
    c: ConfigView,
    hostname: Seq<char>,
    a: Seq<u8>,
    b: Seq<u8>,
    change: ChangeView,
)
    requires
        a.len() == 16,
        b.len() == 16,
    ensures
        ({
            let x = crate::credential::hex_text(a);
            let y = crate::credential::hex_text(b);
            crate::credential::tag_of(c.secret, x) == crate::credential::tag_of(c.secret, y) ==> {
                &&& crate::session::changing(c, x, change) == crate::session::changing(c, y, change)
                &&& crate::session::creating(c, hostname, a) matches StepView::Send(s) ==> {
                    &&& crate::session::creating(c, hostname, b) matches StepView::Send(t)
                    &&& s.message == t.message
                }
            }
        }),
{
    crate::credential::lemma_hex_text_is_token(a);
    crate::credential::lemma_hex_text_is_token(b);
}

/// Whether a text stands somewhere in a string of bytes.
pub open spec fn occurs(text: Seq<char>, string: Seq<u8>) -> bool {
    exists|i: int|
        0 <= i <= string.len() - text.len() && #[trigger] string.subrange(i, i + text.len())
            == crate::text::bytes_of(text)
}

/// Whether a record has this string in it: as a label of its name or of its
/// target, as a character string or as an address.
pub open spec fn mentions(r: RecordView, string: Seq<u8>) -> bool {
    ||| r.name.contains(string)
    ||| match r.data {
        DataView::Ptr(target) => target.contains(string),
        DataView::Txt(strings) => strings.contains(string),
        DataView::A(octets) => octets == string,
        _ => false,
    }
}

/// Whether an update has this string in it: as a label of its zone or in one of
/// its records.
pub open spec fn says(u: UpdateView, string: Seq<u8>) -> bool {
    ||| u.zone.contains(string)
    ||| exists|i: int|
        0 <= i < u.prerequisites.len() && mentions(#[trigger] u.prerequisites[i], string)
    ||| exists|i: int| 0 <= i < u.updates.len() && mentions(#[trigger] u.updates[i], string)
}

/// The update that creates a hostname does not hold the token, where neither the
/// hostname nor a label of the zone does: no string in it is the token's text,
/// and the text can stand, by chance, only within the label that the token's
/// tag makes. A hostname spelled like the token would of course be sent.
pub proof fn law_token_text_is_not_sent(
    c: ConfigView,
    hostname: Seq<char>,
    bytes: Seq<u8>,
    zone: Seq<Seq<u8>>,
    string: Seq<u8>,
)
    requires
        crate::name::is_absolute(c.zone),
        bytes.len() == 16,
        crate::config::named(c.zone) == Ok::<Seq<Seq<u8>>, ErrorView>(zone),
        !occurs(crate::credential::hex_text(bytes), crate::text::bytes_of(hostname)),
        forall|i: int|
            0 <= i < zone.len() ==> !occurs(crate::credential::hex_text(bytes), #[trigger] zone[i]),
        crate::credential::tag_of(c.secret, crate::credential::hex_text(bytes)).len() == 32,
    ensures
        crate::session::on_create(c, hostname, bytes) matches StepView::Send(s) && says(
            s.message,
            string,
        ) ==> {
            let token = crate::credential::hex_text(bytes);
            &&& string != crate::text::bytes_of(token)
            &&& occurs(token, string) ==> string == crate::text::bytes_of(
                crate::credential::base32_text(crate::credential::tag_of(c.secret, token)),
            )
        },
{
    let token = crate::credential::hex_text(bytes);
    let tag = crate::credential::tag_of(c.secret, token);
    let label = crate::text::bytes_of(crate::credential::base32_text(tag));
    if crate::session::on_create(c, hostname, bytes) is Send {
        let u = crate::session::on_create(c, hostname, bytes)->Send_0.message;
        let host = crate::config::named(crate::config::hostname_text(c, hostname))->Ok_0;
        let ptr_name = crate::config::named(crate::config::ptr_text(c, token))->Ok_0;
        crate::session::lemma_hostname_in_zone(c, hostname);
        crate::config::lemma_credential_name(c, tag);
        reveal_strlit("_token");
        assert(u == crate::message::creation(zone, ptr_name, host));
        if says(u, string) {
            lemma_creation_says(zone, ptr_name, host, string);
            assert(token.len() == 32 && label.len() == 52);
            if string == crate::text::bytes_of(token) {
                assert(string.subrange(0, 0int + token.len()) =~= string);
                assert(occurs(token, string));
            }
            if host.contains(string) {
                let i = choose|i: int| 0 <= i < host.len() && host[i] == string;
                if i > 0 {
                    assert(host[i] == zone[i - 1]);
                }
            } else if ptr_name.contains(string) {
                let i = choose|i: int| 0 <= i < ptr_name.len() && ptr_name[i] == string;
                if i > 1 {
                    assert(ptr_name[i] == zone[i - 2]);
                }
            } else if zone.contains(string) {
                let i = choose|i: int| 0 <= i < zone.len() && zone[i] == string;
                assert(!occurs(token, zone[i]));
            }
        }
    }
}

/// The update that changes a hostname does not hold the token, where neither the
/// hostname's labels nor the zone's do: no string in it is the token's text, and
/// the text can stand, by chance, only within the label that the token's tag
/// makes.
pub proof fn law_token_text_is_not_sent_with_changes(
    c: ConfigView,
    token: Seq<char>,
    change: ChangeView,
    first: Result<Seq<RecordView>, ErrorView>,
    second: Result<Seq<RecordView>, ErrorView>,
    host: Seq<Seq<u8>>,
    zone: Seq<Seq<u8>>,
    string: Seq<u8>,
)
    requires
        crate::name::is_absolute(c.zone),
        crate::config::named(c.zone) == Ok::<Seq<Seq<u8>>, ErrorView>(zone),
        first matches Ok(credentials) && credentials.len() > 0 && credentials[0].data
            == DataView::Ptr(host),
        change matches ChangeView::Address(AddressView::V4(octets)) ==> octets.len() == 4,
        forall|i: int| 0 <= i < host.len() ==> !occurs(token, #[trigger] host[i]),
        forall|i: int| 0 <= i < zone.len() ==> !occurs(token, #[trigger] zone[i]),
        crate::credential::tag_of(c.secret, token).len() == 32,
    ensures
        course(c, token, change, first, second) matches StepView::Send(s) && says(
            s.message,
            string,
        ) ==> {
            &&& string != crate::text::bytes_of(token)
            &&& occurs(token, string) ==> string == crate::text::bytes_of(
                crate::credential::base32_text(crate::credential::tag_of(c.secret, token)),
            )
        },
{
    let tag = crate::credential::tag_of(c.secret, token);
    let label = crate::text::bytes_of(crate::credential::base32_text(tag));
    if course(c, token, change, first, second) is Send {
        let s = course(c, token, change, first, second)->Send_0;
        let ptr_name = crate::config::named(crate::config::ptr_text(c, token))->Ok_0;
        law_change_needs_evidence(c, token, change, first, second);
        crate::config::lemma_credential_name(c, tag);
        reveal_strlit("_token");
        assert(s == crate::session::submission(zone, ptr_name, host, change));
        if says(s.message, string) {
            lemma_change_says(zone, ptr_name, host, change, string);
            assert(token.len() == 32 && label.len() == 52);
            if string == crate::text::bytes_of(token) {
                assert(string.subrange(0, 0int + token.len()) =~= string);
                assert(occurs(token, string));
            }
            if host.contains(string) {
                let i = choose|i: int| 0 <= i < host.len() && host[i] == string;
                assert(!occurs(token, host[i]));
            } else if ptr_name.contains(string) {
                let i = choose|i: int| 0 <= i < ptr_name.len() && ptr_name[i] == string;
                if i > 1 {
                    assert(ptr_name[i] == zone[i - 2]);
                }
            } else if zone.contains(string) {
                let i = choose|i: int| 0 <= i < zone.len() && zone[i] == string;
                assert(!occurs(token, zone[i]));
            }
        }
    }
}

/// The strings in the update that changes a hostname.
proof fn lemma_change_says(
    zone: Seq<Seq<u8>>,
    ptr_name: Seq<Seq<u8>>,
    host: Seq<Seq<u8>>,
    change: ChangeView,
    string: Seq<u8>,
)
    requires
        says(crate::session::submission(zone, ptr_name, host, change).message, string),
    ensures
        host.contains(string) || ptr_name.contains(string) || zone.contains(string) || string
            == crate::record::marker_text() || change == ChangeView::Address(
            AddressView::V4(string),
        ),
{
    let u = crate::session::submission(zone, ptr_name, host, change).message;
    assert(u.prerequisites =~= seq![u.prerequisites[0], u.prerequisites[1]]);
    assert(u.updates =~= seq![u.updates[0], u.updates[1]]);
    if mentions(u.prerequisites[1], string) && !host.contains(string) {
        let strings = seq![crate::record::marker_text()];
        assert(strings.contains(string));
        let i = choose|i: int| 0 <= i < strings.len() && strings[i] == string;
        assert(strings[i] == crate::record::marker_text());
    }
}

/// The strings in the update that creates a hostname.
proof fn lemma_creation_says(
    zone: Seq<Seq<u8>>,
    ptr_name: Seq<Seq<u8>>,
    host: Seq<Seq<u8>>,
    string: Seq<u8>,
)
    requires
        says(crate::message::creation(zone, ptr_name, host), string),
    ensures
        host.contains(string) || ptr_name.contains(string) || zone.contains(string) || string
            == crate::record::marker_text(),
{
    let u = crate::message::creation(zone, ptr_name, host);
    assert(u.prerequisites =~= seq![u.prerequisites[0], u.prerequisites[1]]);
    assert(u.updates =~= seq![u.updates[0], u.updates[1]]);
    if mentions(u.updates[0], string) && !host.contains(string) {
        let strings = seq![crate::record::marker_text()];
        assert(strings.contains(string));
        let i = choose|i: int| 0 <= i < strings.len() && strings[i] == string;
        assert(strings[i] == crate::record::marker_text());
    }
}

/// Tags that differ give names of credentials that differ.
pub proof fn law_credential_names_tell_tags_apart(
    c: ConfigView,
    a: Seq<u8>,
    b: Seq<u8>,
    x: Seq<Seq<u8>>,
    y: Seq<Seq<u8>>,
)
    requires
        crate::name::is_absolute(c.zone),
        a.len() == b.len(),
        a != b,
        crate::config::named(crate::config::credential_text(c, a)) == Ok::<
            Seq<Seq<u8>>,
            ErrorView,
        >(x),
        crate::config::named(crate::config::credential_text(c, b)) == Ok::<
            Seq<Seq<u8>>,
            ErrorView,
        >(y),
    ensures
        crate::name::lower_name(x) != crate::name::lower_name(y),
{
    crate::config::lemma_credential_name(c, a);
    crate::config::lemma_credential_name(c, b);
    crate::credential::lemma_base32_lower(a);
    crate::credential::lemma_base32_lower(b);
    if crate::name::lower_name(x) == crate::name::lower_name(y) {
        assert(crate::name::lower_name(x)[0] == crate::name::lower_label(x[0]));
        assert(crate::name::lower_name(y)[0] == crate::name::lower_label(y[0]));
        let s = crate::credential::base32_text(a);
        let t = crate::credential::base32_text(b);
        assert(x[0] == y[0]);
        crate::credential::lemma_base32_injective(a, b);
    }
}

/// Changing the service's secret makes the tokens issued before unusable, where
/// their tags change with it: the credential that was stored for a token is
/// looked for under another name, and while nothing is stored there the token
/// is refused. A token with the same tag under both secrets would stay good.
pub proof fn law_changed_secret_invalidates_tokens(
    c: ConfigView,
    d: ConfigView,
    token: Seq<char>,
    old_name: Seq<Seq<u8>>,
    new_name: Seq<Seq<u8>>,
    zone: Seq<Seq<u8>>,
    host: Seq<Seq<u8>>,
    z: Set<RecordView>,
    credentials: Seq<RecordView>,
    change: ChangeView,
)
    requires
        crate::name::is_absolute(c.zone),
        c.zone == d.zone,
        crate::credential::is_token(token),
        crate::credential::tag_of(c.secret, token) != crate::credential::tag_of(d.secret, token),
        crate::credential::tag_of(c.secret, token).len() == crate::credential::tag_of(
            d.secret,
            token,
        ).len(),
        crate::config::named(crate::config::ptr_text(c, token)) == Ok::<
            Seq<Seq<u8>>,
            ErrorView,
        >(old_name),
        crate::config::named(crate::config::ptr_text(d, token)) == Ok::<
            Seq<Seq<u8>>,
            ErrorView,
        >(new_name),
        crate::config::named(c.zone) == Ok::<Seq<Seq<u8>>, ErrorView>(zone),
        crate::session::is_managed_name(zone, host),
        !crate::server::in_use(z, new_name),
        crate::server::answers(
            crate::server::after(z, crate::message::creation(zone, old_name, host)),
            new_name,
            TYPE_PTR,
            credentials,
        ),
    ensures
        crate::name::lower_name(old_name) != crate::name::lower_name(new_name),
        ({
            let lookup = LookupView { ptr_name: new_name, change, target: None };
            &&& crate::session::changing(d, token, change) == StepView::Query(lookup)
            &&& crate::session::looked_up(d, lookup, Ok(credentials)) == StepView::Reply(
                crate::reply::refusal(STATUS_UNAUTHORIZED, "invalid token"@),
            )
        }),
{
    let a = crate::credential::tag_of(c.secret, token);
    let b = crate::credential::tag_of(d.secret, token);
    let u = crate::message::creation(zone, old_name, host);
    assert(crate::config::ptr_text(d, token) == crate::config::credential_text(c, b));
    law_credential_names_tell_tags_apart(c, a, b, old_name, new_name);
    law_credentials_are_apart_from_hostnames(d, token, new_name, zone, host);
    assert(!crate::server::adds_at(u.updates, new_name));
    crate::server::lemma_updated_unused(z, u.updates, new_name);
    law_token_without_credential_is_refused(
        d,
        crate::server::after(z, u),
        new_name,
        credentials,
        change,
    );
}

/// The address that the client is told is the text of the address that the
/// hostname was given.
pub proof fn law_told_address_is_the_one_set(
    zone: Seq<Seq<u8>>,
    ptr_name: Seq<Seq<u8>>,
    host: Seq<Seq<u8>>,
    address: AddressView,
)
    ensures
        ({
            let s = crate::session::submission(zone, ptr_name, host, ChangeView::Address(address));
            &&& s.message.updates[1] == crate::message::internet(
                host,
                RECORD_TTL,
                crate::record::address_data(address),
            )
            &&& crate::session::success(s.outcome).address == Some(crate::address::text_of(address))
        }),
{
}

/// An IPv4 address is read from its own text and from no other.
pub proof fn law_ipv4_text_is_lossless(octets: Seq<u8>)
    requires
        octets.len() == 4,
    ensures
        crate::address::address_of(crate::address::text_of(AddressView::V4(octets))) == Some(
            AddressView::V4(octets),
        ),
{
    let text = crate::address::ipv4_text(octets);
    assert(crate::address::ipv4_of(text) is Some);
    crate::address::lemma_ipv4_injective(octets, crate::address::ipv4_of(text)->Some_0);
}

} // verus!
