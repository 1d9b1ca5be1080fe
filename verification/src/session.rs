//! Requests: what each asks of the DNS server, and how it is answered.

use hickory_client::proto::op::Message;
use vstd::prelude::*;

use crate::config::{ConfigView, DdnsConfig};
use crate::credential::{random_bytes, token_from_bytes, valid_token};
use crate::error::{DdnsError, ErrorView};
use crate::exchange::{query, send_update, QueryReply, UpdateReply};
use crate::message::{address_message, create_message, delete_message, UpdateView};
use crate::name::{name_to_ascii, valid_hostname, DnsName};
use crate::record::{
    marker, Address, AddressView, DataView, DnsRecord, RecordData, RecordView, TYPE_PTR, TYPE_TXT,
};
use crate::reply::{
    dns_error_response, json_error, Reply, ReplyView, STATUS_BAD_REQUEST, STATUS_OK,
};
use crate::text::same_bytes;

verus! {

/// What a holder of a credential asks for.
pub enum ChangeView {
    Address(AddressView),
    Delete,
}

/// What a holder of a credential asks for: that its hostname have this address,
/// or that it be deleted.
pub enum Change {
    Address(Address),
    Delete,
}

impl View for Change {
    type V = ChangeView;

    open spec fn view(&self) -> ChangeView {
        match self {
            Change::Address(address) => ChangeView::Address(address@),
            Change::Delete => ChangeView::Delete,
        }
    }
}

/// A question to the DNS server on the way to a change: who holds the
/// credential, and then, with the target and the zone known, whether the target
/// is marked.
pub struct LookupView {
    pub ptr_name: Seq<Seq<u8>>,
    pub change: ChangeView,
    pub target: Option<(Seq<Seq<u8>>, Seq<Seq<u8>>)>,
}

/// What is told to the client once an update has gone through.
pub enum OutcomeView {
    Created(Seq<char>),
    Addressed(Seq<Seq<u8>>, AddressView),
    Deleted(Seq<Seq<u8>>),
}

/// An update for the DNS server and what it is for.
pub struct SubmissionView {
    pub message: UpdateView,
    pub outcome: OutcomeView,
}

/// What is to be done next for a request.
pub enum StepView {
    Query(LookupView),
    Send(SubmissionView),
    Reply(ReplyView),
}

/// The step that ends a request with a failure.
pub open spec fn failed(error: ErrorView) -> StepView {
    StepView::Reply(crate::reply::error_reply(error))
}

/// What a request to reserve a hostname does next, where the token is made of
/// these bytes.
pub open spec fn creating(c: ConfigView, hostname: Seq<char>, bytes: Seq<u8>) -> StepView {
    let token = crate::credential::hex_text(bytes);
    let names = (
        crate::config::named(crate::config::hostname_text(c, hostname)),
        crate::config::named(crate::config::ptr_text(c, token)),
        crate::config::named(c.zone),
    );
    match names {
        (Err(e), _, _) => failed(e),
        (_, Err(e), _) => failed(e),
        (_, _, Err(e)) => failed(e),
        (Ok(host), Ok(ptr_name), Ok(zone)) => StepView::Send(
            SubmissionView {
                message: crate::message::creation(zone, ptr_name, host),
                outcome: OutcomeView::Created(token),
            },
        ),
    }
}

/// What a request with a token does next.
pub open spec fn changing(c: ConfigView, token: Seq<char>, change: ChangeView) -> StepView {
    if !crate::credential::is_token(token) {
        failed(crate::error::denied("invalid token"@))
    } else {
        match crate::config::named(crate::config::ptr_text(c, token)) {
            Err(e) => failed(e),
            Ok(ptr_name) => StepView::Query(LookupView { ptr_name, change, target: None }),
        }
    }
}

/// Whether these are the records of a credential: one pointer, at the name that
/// was asked for.
pub open spec fn is_credential(ptr_name: Seq<Seq<u8>>, answers: Seq<RecordView>) -> bool {
    &&& answers.len() == 1
    &&& answers[0].data is Ptr
    &&& crate::name::lower_name(answers[0].name) == crate::name::lower_name(ptr_name)
}

/// Whether a name is that of a hostname directly in the zone.
pub open spec fn is_managed_name(zone: Seq<Seq<u8>>, host: Seq<Seq<u8>>) -> bool {
    &&& crate::name::lower_name(crate::name::base_of(host)) == crate::name::lower_name(zone)
    &&& host.len() > 0
    &&& crate::name::is_hostname(crate::text::chars_of(host[0]))
}

/// Whether these are the records of a marked hostname: one text, which is the
/// marker, at the name that was asked for.
pub open spec fn is_marked(host: Seq<Seq<u8>>, answers: Seq<RecordView>) -> bool {
    &&& answers.len() == 1
    &&& answers[0].data == crate::record::marker_data()
    &&& crate::name::lower_name(answers[0].name) == crate::name::lower_name(host)
}

/// The update that a change takes, and what it is for.
pub open spec fn submission(
    zone: Seq<Seq<u8>>,
    ptr_name: Seq<Seq<u8>>,
    host: Seq<Seq<u8>>,
    change: ChangeView,
) -> SubmissionView {
    match change {
        ChangeView::Address(address) => SubmissionView {
            message: crate::message::readdressing(zone, ptr_name, host, address),
            outcome: OutcomeView::Addressed(host, address),
        },
        ChangeView::Delete => SubmissionView {
            message: crate::message::removal(zone, ptr_name, host),
            outcome: OutcomeView::Deleted(host),
        },
    }
}

/// What follows from the answer to a question.
pub open spec fn looked_up(
    c: ConfigView,
    lookup: LookupView,
    answers: Result<Seq<RecordView>, ErrorView>,
) -> StepView {
    match (answers, lookup.target) {
        (Err(e), _) => failed(e),
        (Ok(a), None) => {
            if !is_credential(lookup.ptr_name, a) {
                failed(crate::error::denied("invalid token"@))
            } else {
                let host = a[0].data->Ptr_0;
                match crate::config::named(c.zone) {
                    Err(e) => failed(e),
                    Ok(zone) => {
                        if is_managed_name(zone, host) {
                            StepView::Query(LookupView { target: Some((host, zone)), ..lookup })
                        } else {
                            failed(
                                crate::error::denied(
                                    "credential PTR target is outside the DDNS zone"@,
                                ),
                            )
                        }
                    },
                }
            }
        },
        (Ok(a), Some((host, zone))) => {
            if is_marked(host, a) {
                StepView::Send(submission(zone, lookup.ptr_name, host, lookup.change))
            } else {
                failed(crate::error::denied("credential PTR target is not a managed hostname"@))
            }
        },
    }
}

/// The response to an update that went through.
pub open spec fn success(outcome: OutcomeView) -> ReplyView {
    let nothing = ReplyView {
        status: STATUS_OK,
        error: None,
        token: None,
        hostname: None,
        address: None,
    };
    match outcome {
        OutcomeView::Created(token) => ReplyView { token: Some(token), ..nothing },
        OutcomeView::Addressed(host, address) => ReplyView {
            hostname: Some(crate::name::text_of_name(host)),
            address: Some(crate::address::text_of(address)),
            ..nothing
        },
        OutcomeView::Deleted(host) => ReplyView {
            hostname: Some(crate::name::text_of_name(host)),
            ..nothing
        },
    }
}

/// The response once the DNS server has taken or refused an update.
pub open spec fn concluded(outcome: OutcomeView, result: Result<(), ErrorView>) -> ReplyView {
    match result {
        Ok(_) => success(outcome),
        Err(e) => crate::reply::error_reply(e),
    }
}

/// The text of a request's parameter, which is empty where it is missing.
pub open spec fn param(value: Option<&str>) -> Seq<char> {
    match value {
        Some(text) => text@,
        None => Seq::empty(),
    }
}

/// What a request to `/create` does first, where the token is made of these
/// bytes.
pub open spec fn on_create(c: ConfigView, hostname: Seq<char>, bytes: Seq<u8>) -> StepView {
    if crate::name::is_hostname(hostname) {
        creating(c, hostname, bytes)
    } else {
        StepView::Reply(
            crate::reply::refusal(STATUS_BAD_REQUEST, "hostname must be a valid DNS label"@),
        )
    }
}

/// What a request to `/delete` does first.
pub open spec fn on_delete(c: ConfigView, token: Seq<char>) -> StepView {
    if token.len() == 0 {
        StepView::Reply(crate::reply::refusal(STATUS_BAD_REQUEST, "token is required"@))
    } else {
        changing(c, token, ChangeView::Delete)
    }
}

/// What a request to `/update` does first.
pub open spec fn on_update(
    c: ConfigView,
    token: Seq<char>,
    address: Option<AddressView>,
) -> StepView {
    if token.len() == 0 {
        StepView::Reply(crate::reply::refusal(STATUS_BAD_REQUEST, "token is required"@))
    } else {
        match address {
            None => StepView::Reply(
                crate::reply::refusal(STATUS_BAD_REQUEST, "X-Real-IP must contain one IP address"@),
            ),
            Some(address) => changing(c, token, ChangeView::Address(address)),
        }
    }
}

/// A hostname that a credential points to, and the zone that it lies in.
struct Target {
    hostname: DnsName,
    zone: DnsName,
}

/// A question to the DNS server on the way to a change.
pub struct Lookup {
    ptr_name: DnsName,
    change: Change,
    target: Option<Target>,
}

impl View for Lookup {
    type V = LookupView;

    closed spec fn view(&self) -> LookupView {
        LookupView {
            ptr_name: self.ptr_name@,
            change: self.change@,
            target: match self.target {
                Some(target) => Some((target.hostname@, target.zone@)),
                None => None,
            },
        }
    }
}

enum Outcome {
    Created(String),
    Addressed(DnsName, Address),
    Deleted(DnsName),
}

impl View for Outcome {
    type V = OutcomeView;

    closed spec fn view(&self) -> OutcomeView {
        match self {
            Outcome::Created(token) => OutcomeView::Created(token@),
            Outcome::Addressed(host, address) => OutcomeView::Addressed(host@, address@),
            Outcome::Deleted(host) => OutcomeView::Deleted(host@),
        }
    }
}

/// An update for the DNS server.
pub struct Submission {
    message: Message,
    outcome: Outcome,
}

impl View for Submission {
    type V = SubmissionView;

    closed spec fn view(&self) -> SubmissionView {
        SubmissionView {
            message: crate::message::message_view(self.message),
            outcome: self.outcome@,
        }
    }
}

/// What is to be done next for a request: ask the DNS server, send it an
/// update, or respond to the client.
pub enum Step {
    Query(Lookup),
    Send(Submission),
    Reply(Reply),
}

impl View for Step {
    type V = StepView;

    open spec fn view(&self) -> StepView {
        match self {
            Step::Query(lookup) => StepView::Query(lookup@),
            Step::Send(submission) => StepView::Send(submission@),
            Step::Reply(reply) => StepView::Reply(reply@),
        }
    }
}

fn fail(error: DdnsError) -> (r: Step)
    ensures
        r@ == failed(error@),
{
    Step::Reply(dns_error_response(error))
}

fn refuse(message: &str) -> (r: Step)
    ensures
        r@ == StepView::Reply(crate::reply::refusal(STATUS_BAD_REQUEST, message@)),
{
    Step::Reply(json_error(STATUS_BAD_REQUEST, message.to_owned()))
}

impl DdnsConfig {
    /// Reserves a hostname for the holder of the token that these bytes make.
    ///
    /// A hostname with a backslash could take the dot behind it for its own and
    /// so name something outside the zone.
    pub fn create_hostname(&self, hostname: &str, bytes: &[u8; 16]) -> (r: Step)
        requires
            !hostname@.contains('\\'),
        ensures
            r@ == creating(self@, hostname@, bytes@),
            crate::config::roomy(self@) && crate::name::is_hostname(hostname@) ==> r@ is Send,
    {
        proof {
            use_type_invariant(self);
        }
        proof {
            if crate::config::roomy(self@) && crate::name::is_hostname(hostname@) {
                lemma_hostname_fits(self@, hostname@);
            }
        }
        let token = token_from_bytes(bytes);
        let host = match self.hostname_name(hostname) {
            Ok(name) => name,
            Err(error) => {
                return fail(error);
            },
        };
        let ptr_name = match self.ptr_name_from_token(token.as_str()) {
            Ok(name) => name,
            Err(error) => {
                return fail(error);
            },
        };
        let zone = match self.zone_name() {
            Ok(name) => name,
            Err(error) => {
                return fail(error);
            },
        };
        proof {
            lemma_name_in_zone(self@, hostname@);
        }
        let message = create_message(&zone, &ptr_name, &host);
        Step::Send(Submission { message, outcome: Outcome::Created(token) })
    }

    /// Asks who holds the credential for a token, so as to make a change.
    pub fn authorize(&self, token: &str, change: Change) -> (r: Step)
        ensures
            r@ == changing(self@, token@, change@),
            crate::config::roomy(self@) && crate::credential::is_token(token@) ==> r@ is Query,
    {
        if !valid_token(token) {
            return fail(DdnsError::permission_denied("invalid token"));
        }
        match self.ptr_name_from_token(token) {
            Ok(ptr_name) => Step::Query(Lookup { ptr_name, change, target: None }),
            Err(error) => fail(error),
        }
    }

    /// Begins to give the hostname of a token's holder this address.
    pub fn update_address(&self, token: &str, address: Address) -> (r: Step)
        ensures
            r@ == changing(self@, token@, ChangeView::Address(address@)),
            crate::config::roomy(self@) && crate::credential::is_token(token@) ==> r@ is Query,
    {
        self.authorize(token, Change::Address(address))
    }

    /// Begins to delete the hostname of a token's holder.
    pub fn delete_hostname(&self, token: &str) -> (r: Step)
        ensures
            r@ == changing(self@, token@, ChangeView::Delete),
            crate::config::roomy(self@) && crate::credential::is_token(token@) ==> r@ is Query,
    {
        self.authorize(token, Change::Delete)
    }
}

impl Lookup {
    /// A target lies in its zone.
    #[verifier::type_invariant]
    pub open spec fn wf(self) -> bool {
        match self@.target {
            Some((host, zone)) => crate::name::zone_of(zone, host),
            None => true,
        }
    }

    /// The name to ask for.
    pub fn name(&self) -> (r: &DnsName)
        ensures
            r@ == (match self@.target {
                Some((host, _)) => host,
                None => self@.ptr_name,
            }),
    {
        match &self.target {
            Some(target) => &target.hostname,
            None => &self.ptr_name,
        }
    }

    /// The type of record to ask for.
    pub fn kind(&self) -> (r: u16)
        ensures
            r == (if self@.target is Some {
                TYPE_TXT
            } else {
                TYPE_PTR
            }),
    {
        match &self.target {
            Some(_) => TYPE_TXT,
            None => TYPE_PTR,
        }
    }

    /// Takes the answer to the question.
    pub fn answered(self, config: &DdnsConfig, reply: QueryReply) -> (r: Step)
        ensures
            r@ == looked_up(config@, self@, crate::exchange::answers_of(reply)),
    {
        proof {
            use_type_invariant(&self);
        }
        let answers = match query(reply) {
            Ok(answers) => answers,
            Err(error) => {
                return fail(error);
            },
        };
        match self.target {
            None => {
                let hostname = match credential_target(&self.ptr_name, &answers) {
                    Some(hostname) => hostname,
                    None => {
                        return fail(DdnsError::permission_denied("invalid token"));
                    },
                };
                let zone = match config.zone_name() {
                    Ok(zone) => zone,
                    Err(error) => {
                        return fail(error);
                    },
                };
                if !hostname.base_name().same_name(&zone) || !hostname.has_hostname_label() {
                    return fail(
                        DdnsError::permission_denied(
                            "credential PTR target is outside the DDNS zone",
                        ),
                    );
                }
                proof {
                    crate::name::lemma_zone_of_base(zone@, hostname@);
                }
                Step::Query(
                    Lookup {
                        ptr_name: self.ptr_name,
                        change: self.change,
                        target: Some(Target { hostname, zone }),
                    },
                )
            },
            Some(target) => {
                if !has_marker(&target.hostname, &answers) {
                    return fail(
                        DdnsError::permission_denied(
                            "credential PTR target is not a managed hostname",
                        ),
                    );
                }
                match self.change {
                    Change::Address(address) => {
                        let message = address_message(
                            &target.zone,
                            &self.ptr_name,
                            &target.hostname,
                            &address,
                        );
                        Step::Send(
                            Submission {
                                message,
                                outcome: Outcome::Addressed(target.hostname, address),
                            },
                        )
                    },
                    Change::Delete => {
                        let message = delete_message(
                            &target.zone,
                            &self.ptr_name,
                            &target.hostname,
                        );
                        Step::Send(
                            Submission { message, outcome: Outcome::Deleted(target.hostname) },
                        )
                    },
                }
            },
        }
    }
}

/// The name that a credential points to, if these are its records.
fn credential_target(ptr_name: &DnsName, answers: &Vec<DnsRecord>) -> (r: Option<DnsName>)
    ensures
        match r {
            Some(host) => {
                &&& is_credential(ptr_name@, crate::record::record_views(answers@))
                &&& crate::record::record_views(answers@)[0].data == DataView::Ptr(host@)
            },
            None => !is_credential(ptr_name@, crate::record::record_views(answers@)),
        },
{
    if answers.len() != 1 {
        return None;
    }
    assert(crate::record::record_views(answers@)[0] == answers@[0]@);
    match &answers[0].data {
        RecordData::Ptr(target) => {
            if answers[0].name.same_name(ptr_name) {
                Some(target.clone())
            } else {
                None
            }
        },
        _ => None,
    }
}

/// Whether these are the records of a marked hostname.
fn has_marker(host: &DnsName, answers: &Vec<DnsRecord>) -> (r: bool)
    ensures
        r == is_marked(host@, crate::record::record_views(answers@)),
{
    if answers.len() != 1 {
        return false;
    }
    let ghost data = answers@[0].data@;
    assert(crate::record::record_views(answers@)[0] == answers@[0]@);
    match &answers[0].data {
        RecordData::Txt(strings) => {
            if strings.len() != 1 {
                assert(data->Txt_0.len() != 1);
                return false;
            }
            assert(data->Txt_0[0] == strings@[0]@);
            if !same_bytes(&strings[0], &marker()) {
                assert(data != crate::record::marker_data());
                return false;
            }
            assert(data->Txt_0 =~= seq![crate::record::marker_text()]);
            answers[0].name.same_name(host)
        },
        _ => false,
    }
}

impl Submission {
    /// The message is a request.
    #[verifier::type_invariant]
    spec fn wf(self) -> bool {
        crate::message::is_request(crate::message::message_header(self.message))
    }

    /// The message to send.
    pub fn message(&self) -> (r: &Message)
        ensures
            crate::message::message_view(*r) == self@.message,
            crate::message::is_request(crate::message::message_header(*r)),
    {
        proof {
            use_type_invariant(self);
        }
        &self.message
    }

    /// Takes what came of sending the message.
    pub fn answered(self, reply: UpdateReply) -> (r: Reply)
        ensures
            r@ == concluded(self@.outcome, crate::exchange::update_result(reply)),
    {
        if let Err(error) = send_update(reply) {
            return dns_error_response(error);
        }
        let mut r = Reply {
            status: STATUS_OK,
            error: None,
            token: None,
            hostname: None,
            address: None,
        };
        match self.outcome {
            Outcome::Created(token) => {
                r.token = Some(token);
            },
            Outcome::Addressed(host, address) => {
                proof {
                    use_type_invariant(&host);
                }
                r.hostname = Some(name_to_ascii(&host));
                r.address = Some(address.to_text());
            },
            Outcome::Deleted(host) => {
                proof {
                    use_type_invariant(&host);
                }
                r.hostname = Some(name_to_ascii(&host));
            },
        }
        r
    }
}

/// Begins a request to `/create`, where the token is made of these bytes.
pub fn create_with_bytes(config: &DdnsConfig, hostname: Option<&str>, bytes: &[u8; 16]) -> (r: Step)
    ensures
        r@ == on_create(config@, param(hostname), bytes@),
        crate::config::roomy(config@) && crate::name::is_hostname(param(hostname)) ==> r@ is Send,
{
    match hostname {
        Some(hostname) if valid_hostname(hostname) => {
            proof {
                lemma_hostname_plain(hostname@);
            }
            config.create_hostname(hostname, bytes)
        },
        _ => refuse("hostname must be a valid DNS label"),
    }
}

/// Begins a request to `/create`. The token is random.
pub fn handler_create(config: &DdnsConfig, hostname: Option<&str>) -> (r: Step)
    ensures
        exists|bytes: Seq<u8>|
            bytes.len() == 16 && r@ == #[trigger] on_create(config@, param(hostname), bytes),
        crate::config::roomy(config@) && crate::name::is_hostname(param(hostname)) ==> r@ is Send,
{
    let bytes = random_bytes();
    let r = create_with_bytes(config, hostname, &bytes);
    assert(r@ == on_create(config@, param(hostname), bytes@));
    r
}

/// Begins a request to `/delete`.
pub fn handler_delete(config: &DdnsConfig, token: Option<&str>) -> (r: Step)
    ensures
        r@ == on_delete(config@, param(token)),
        crate::config::roomy(config@) && crate::credential::is_token(param(token)) ==> r@ is Query,
{
    match token {
        Some(token) if !token.is_empty() => config.delete_hostname(token),
        _ => refuse("token is required"),
    }
}

/// Begins a request to `/update`, where this is the address of the client if
/// there is one.
pub fn update_with_address(
    config: &DdnsConfig,
    token: Option<&str>,
    address: Option<Address>,
) -> (r: Step)
    ensures
        r@ == on_update(config@, param(token), crate::address::opt_address(address)),
        crate::config::roomy(config@) && crate::credential::is_token(param(token))
            && address is Some ==> r@ is Query,
{
    match token {
        Some(token) if !token.is_empty() => match address {
            Some(address) => config.update_address(token, address),
            None => refuse("X-Real-IP must contain one IP address"),
        },
        _ => refuse("token is required"),
    }
}

/// The address that the text of the header `X-Real-IP` stands for.
pub open spec fn header_address(real_ip: Option<&str>) -> Option<AddressView> {
    match real_ip {
        Some(text) => crate::address::address_of(text@),
        None => None,
    }
}

/// Begins a request to `/update`, with the text of the header `X-Real-IP` if the
/// request has one.
pub fn handler_update(config: &DdnsConfig, token: Option<&str>, real_ip: Option<&str>) -> (r: Step)
    ensures
        r@ == on_update(config@, param(token), header_address(real_ip)),
        crate::config::roomy(config@) && crate::credential::is_token(param(token))
            && header_address(real_ip) is Some ==> r@ is Query,
{
    let address = match real_ip {
        Some(text) => Address::from_text(text),
        None => None,
    };
    update_with_address(config, token, address)
}

/// The text of a name in the zone has no backslash where the part before the
/// zone has none.
pub proof fn lemma_no_backslash(c: ConfigView, hostname: Seq<char>)
    requires
        crate::name::is_absolute(c.zone),
        !hostname.contains('\\'),
    ensures
        !crate::config::hostname_text(c, hostname).contains('\\'),
{
    let text = crate::config::hostname_text(c, hostname);
    if text.contains('\\') {
        let i = choose|i: int| 0 <= i < text.len() && text[i] == '\\';
        if i < hostname.len() {
            assert(hostname[i] == '\\');
        } else if i > hostname.len() {
            assert(c.zone[i - hostname.len() - 1] == '\\');
        }
    }
}

/// What is named below the zone lies in the zone.
pub proof fn lemma_name_in_zone(c: ConfigView, hostname: Seq<char>)
    requires
        crate::name::is_absolute(c.zone),
        !hostname.contains('\\'),
        crate::config::named(crate::config::hostname_text(c, hostname)) is Ok,
        crate::config::named(c.zone) is Ok,
    ensures
        crate::name::zone_of(
            crate::config::named(c.zone)->Ok_0,
            crate::config::named(crate::config::hostname_text(c, hostname))->Ok_0,
        ),
{
    lemma_no_backslash(c, hostname);
    crate::name::lemma_suffix_name(hostname, c.zone);
    crate::name::lemma_zone_of_suffix(
        crate::config::named(c.zone)->Ok_0,
        crate::config::named(crate::config::hostname_text(c, hostname))->Ok_0,
    );
}

/// There is a name for every hostname below a zone that has room.
pub proof fn lemma_hostname_fits(c: ConfigView, hostname: Seq<char>)
    requires
        crate::name::is_absolute(c.zone),
        crate::name::is_hostname(hostname),
        crate::config::roomy(c),
    ensures
        crate::config::named(crate::config::hostname_text(c, hostname)) is Ok,
{
    lemma_hostname_plain(hostname);
    lemma_no_backslash(c, hostname);
    crate::name::lemma_prefixed_name(hostname, c.zone);
}

/// A hostname has neither dots nor backslashes.
pub proof fn lemma_hostname_plain(hostname: Seq<char>)
    requires
        crate::name::is_hostname(hostname),
    ensures
        !hostname.contains('.'),
        !hostname.contains('\\'),
        crate::name::is_label_text(hostname),
{
    assert forall|i: int| 0 <= i < hostname.len() implies hostname[i] != '.' && hostname[i] != '\\'
        by {
        assert(crate::text::is_alphanumeric(hostname[i]) || hostname[i] == '-');
    }
    assert(hostname[0] == hostname.first());
}

/// The name of a hostname is its own label and then the labels of the zone.
pub proof fn lemma_hostname_in_zone(c: ConfigView, hostname: Seq<char>)
    requires
        crate::name::is_absolute(c.zone),
        crate::name::is_hostname(hostname),
        crate::config::named(crate::config::hostname_text(c, hostname)) is Ok,
        crate::config::named(c.zone) is Ok,
    ensures
        ({
            let host = crate::config::named(crate::config::hostname_text(c, hostname))->Ok_0;
            let zone = crate::config::named(c.zone)->Ok_0;
            &&& host == seq![crate::text::bytes_of(hostname)] + zone
            &&& is_managed_name(zone, host)
            &&& crate::name::text_of_name(host) == crate::config::hostname_text(c, hostname)
        }),
{
    let text = crate::config::hostname_text(c, hostname);
    let host = crate::config::named(text)->Ok_0;
    let zone = crate::config::named(c.zone)->Ok_0;
    lemma_hostname_plain(hostname);
    lemma_no_backslash(c, hostname);
    crate::name::lemma_prefixed_name(hostname, c.zone);
    assert(host.drop_first() =~= zone);
    assert(crate::text::chars_of(crate::text::bytes_of(hostname)) =~= hostname) by {
        assert forall|i: int| 0 <= i < hostname.len() implies (hostname[i] as u8) as char
            == hostname[i] by {
            assert(crate::text::is_alphanumeric(hostname[i]) || hostname[i] == '-');
        }
    }
    crate::name::lemma_text_of_name(text);
}

} // verus!
