//! The configuration of the service and the names that it derives.

use vstd::prelude::*;

use crate::credential::{hmac_tag, label_of_tag};
use crate::error::{DdnsError, ErrorView};
use crate::name::{absolute_name, parse_name, DnsName};
use crate::text::trim_text;

verus! {

/// The secret under which credential names are derived, and the text of the
/// managed zone.
pub struct ConfigView {
    pub secret: Seq<u8>,
    pub zone: Seq<char>,
}

/// The text of a setting, which is empty where the setting is missing.
pub open spec fn setting(value: Option<&str>) -> Seq<char> {
    match value {
        Some(text) => crate::text::trimmed(text@),
        None => Seq::empty(),
    }
}

/// The configuration that these settings make up, or what is wrong with them.
pub open spec fn configured(
    server_secret: Seq<char>,
    ddns_zone: Seq<char>,
) -> Result<ConfigView, Seq<char>> {
    if server_secret.len() == 0 {
        Err("SERVER_SECRET is not set"@)
    } else if ddns_zone.len() == 0 {
        Err("DDNS_ZONE is not set"@)
    } else if !crate::name::is_fqdn(ddns_zone) {
        Err(crate::name::fqdn_refusal(ddns_zone))
    } else {
        Ok(
            ConfigView {
                secret: vstd::utf8::encode_utf8(server_secret),
                zone: crate::name::absolute_text(ddns_zone),
            },
        )
    }
}

/// The labels of a name, or the failure to read its text.
pub open spec fn named(text: Seq<char>) -> Result<Seq<Seq<u8>>, ErrorView> {
    match crate::name::name_of(text) {
        Ok(labels) => Ok(labels),
        Err(words) => Err(crate::error::other(words)),
    }
}

/// A name or a failure, by what it says.
pub open spec fn name_result(r: Result<DnsName, DdnsError>) -> Result<Seq<Seq<u8>>, ErrorView> {
    match r {
        Ok(name) => Ok(name@),
        Err(error) => Err(error@),
    }
}

/// The text of the name of a hostname in the zone.
pub open spec fn hostname_text(c: ConfigView, hostname: Seq<char>) -> Seq<char> {
    hostname + seq!['.'] + c.zone
}

/// The text of the name that holds the credential with this tag.
pub open spec fn credential_text(c: ConfigView, tag: Seq<u8>) -> Seq<char> {
    crate::credential::base32_text(tag) + "._token."@ + c.zone
}

/// The text of the name that holds the credential for a token.
pub open spec fn ptr_text(c: ConfigView, token: Seq<char>) -> Seq<char> {
    credential_text(c, crate::credential::tag_of(c.secret, token))
}

/// Whether the zone is a name below the root that leaves room for the name of
/// every hostname and of every credential below it.
pub open spec fn roomy(c: ConfigView) -> bool {
    match named(c.zone) {
        Ok(zone) => 0 < zone.len() && crate::name::encoded_len(zone) <= 191,
        Err(_) => false,
    }
}

/// The configuration of the service.
pub struct DdnsConfig {
    server_secret: Vec<u8>,
    ddns_zone: String,
}

impl View for DdnsConfig {
    type V = ConfigView;

    closed spec fn view(&self) -> ConfigView {
        ConfigView { secret: self.server_secret@, zone: self.ddns_zone@ }
    }
}

fn read_name(text: &str) -> (r: Result<DnsName, DdnsError>)
    requires
        text@.len() > 0,
        text@.last() == '.',
    ensures
        name_result(r) == named(text@),
{
    match parse_name(text) {
        Ok(name) => Ok(name),
        Err(words) => Err(DdnsError::other(words)),
    }
}

impl DdnsConfig {
    /// The zone is the text of an absolute domain name.
    #[verifier::type_invariant]
    pub open spec fn wf(self) -> bool {
        crate::name::is_absolute(self@.zone)
    }

    /// Takes the settings `SERVER_SECRET` and `DDNS_ZONE`.
    pub fn from_settings(server_secret: Option<&str>, ddns_zone: Option<&str>) -> (r: Result<
        DdnsConfig,
        String,
    >)
        ensures
            match r {
                Ok(c) => configured(setting(server_secret), setting(ddns_zone)) == Ok::<
                    ConfigView,
                    Seq<char>,
                >(c@),
                Err(e) => configured(setting(server_secret), setting(ddns_zone)) == Err::<
                    ConfigView,
                    Seq<char>,
                >(e@),
            },
    {
        let server_secret = match server_secret {
            Some(text) => trim_text(text),
            None => String::new(),
        };
        if server_secret.as_str().is_empty() {
            return Err("SERVER_SECRET is not set".to_owned());
        }
        let ddns_zone = match ddns_zone {
            Some(text) => trim_text(text),
            None => String::new(),
        };
        if ddns_zone.as_str().is_empty() {
            return Err("DDNS_ZONE is not set".to_owned());
        }
        match absolute_name(ddns_zone.as_str()) {
            Ok(zone) => Ok(
                DdnsConfig {
                    server_secret: server_secret.as_str().as_bytes_vec(),
                    ddns_zone: zone,
                },
            ),
            Err(words) => Err(words),
        }
    }

    /// The name of the zone.
    pub fn zone_name(&self) -> (r: Result<DnsName, DdnsError>)
        ensures
            name_result(r) == named(self@.zone),
    {
        proof {
            use_type_invariant(self);
        }
        read_name(self.ddns_zone.as_str())
    }

    /// The name of a hostname in the zone.
    pub fn hostname_name(&self, hostname: &str) -> (r: Result<DnsName, DdnsError>)
        ensures
            name_result(r) == named(hostname_text(self@, hostname@)),
    {
        proof {
            use_type_invariant(self);
            reveal_strlit(".");
            assert("."@ =~= seq!['.']);
        }
        let text = hostname.to_owned().concat(".").concat(self.ddns_zone.as_str());
        assert(text@ =~= hostname_text(self@, hostname@));
        read_name(text.as_str())
    }

    /// The name that holds the credential for a token.
    pub fn ptr_name_from_token(&self, token: &str) -> (r: Result<DnsName, DdnsError>)
        ensures
            name_result(r) == named(ptr_text(self@, token@)),
            crate::credential::tag_of(self@.secret, token@).len() == 32,
            r is Ok ==> name_result(r)->Ok_0[0].len() == 52,
            roomy(self@) ==> r is Ok,
    {
        self.credential_name(&hmac_tag(&self.server_secret, token))
    }

    /// The name that holds the credential with this tag.
    pub fn credential_name(&self, tag: &Vec<u8>) -> (r: Result<DnsName, DdnsError>)
        ensures
            name_result(r) == named(credential_text(self@, tag@)),
            r is Ok ==> name_result(r)->Ok_0[0] == crate::text::bytes_of(
                crate::credential::base32_text(tag@),
            ),
            roomy(self@) && tag@.len() == 32 ==> r is Ok,
    {
        proof {
            use_type_invariant(self);
            lemma_credential_name(self@, tag@);
        }
        let text = label_of_tag(tag).concat("._token.").concat(self.ddns_zone.as_str());
        assert(text@.last() == self.ddns_zone@.last());
        read_name(text.as_str())
    }
}

/// The name for a credential is its label, the label `_token` and then the
/// labels of the zone, where the label can be one and there is room.
pub proof fn lemma_credential_name(c: ConfigView, tag: Seq<u8>)
    requires
        crate::name::is_absolute(c.zone),
    ensures
        match (named(c.zone), named(credential_text(c, tag))) {
            (Ok(zone), Ok(n)) => n == seq![
                crate::text::bytes_of(crate::credential::base32_text(tag)),
                crate::text::bytes_of("_token"@),
            ] + zone,
            (Ok(zone), Err(_)) => {
                let label = crate::credential::base32_text(tag);
                ||| !(1 <= label.len() <= 63)
                ||| zone.len() == 0
                ||| 8 + label.len() + crate::name::encoded_len(zone) > 255
            },
            (Err(_), Ok(_)) => false,
            (Err(_), Err(_)) => true,
        },
{
    let label = crate::credential::base32_text(tag);
    let below = "_token"@ + seq!['.'] + c.zone;
    reveal_strlit("_token");
    reveal_strlit("._token.");
    assert("._token."@ =~= seq!['.'] + "_token"@ + seq!['.']);
    assert(credential_text(c, tag) =~= label + seq!['.'] + below);
    crate::credential::lemma_base32_alphanumeric(tag);
    assert forall|i: int| 0 <= i < label.len() implies label[i] != '.' && label[i] != '\\' by {
        assert(crate::text::is_alphanumeric(label[i]));
    }
    let text = credential_text(c, tag);
    assert(!text.contains('\\')) by {
        if text.contains('\\') {
            let i = choose|i: int| 0 <= i < text.len() && text[i] == '\\';
            if i >= label.len() + 8 {
                assert(c.zone[i - label.len() - 8] == '\\');
            } else if i < label.len() {
                assert(label[i] == '\\');
            } else {
                assert("._token."@[i - label.len()] == '\\');
            }
        }
    }
    assert(!"_token"@.contains('.'));
    assert(crate::name::is_label_text("_token"@));
    crate::name::lemma_prefixed_name("_token"@, c.zone);
    crate::name::lemma_prefixed_name(label, below);
    if let Ok(zone) = named(c.zone) {
        let middle = seq![crate::text::bytes_of("_token"@)] + zone;
        assert(middle.drop_first() =~= zone);
        assert(seq![crate::text::bytes_of(label)] + middle =~= seq![
            crate::text::bytes_of(label),
            crate::text::bytes_of("_token"@),
        ] + zone);
        assert(crate::name::encoded_len(middle) == 7 + crate::name::encoded_len(zone));
        if 1 <= label.len() <= 63 {
            assert(crate::name::is_label_text(label));
        }
    }
}

} // verus!
