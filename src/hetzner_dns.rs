use vstd::prelude::*;
use vstd::string::StringExecFns;

use crate::record::{DnsRecord, RecordContent};

verus! {

/// The text of the URL that `url::Url::join` makes of `input` against the
/// URL whose text is `base`, or `None` where either does not parse.
pub uninterp spec fn url_joined(base: Seq<char>, input: Seq<char>) -> Option<Seq<char>>;

/// The text of the URL `url` with the query pair `name=value` appended,
/// form-encoded, or `None` where `url` does not parse.
pub uninterp spec fn url_with_pair(url: Seq<char>, name: Seq<char>, value: Seq<char>) -> Option<
    Seq<char>,
>;

/// Relies on `url::Url::parse` and `url::Url::join`: resolves `input` as a
/// reference against `base` and gives the text of the result.
#[verifier::external_body]
fn join_url(base: &str, input: &str) -> (r: Option<String>)
    ensures
        match r {
            Some(u) => url_joined(base@, input@) == Some(u@),
            None => url_joined(base@, input@).is_none(),
        },
{
    match url::Url::parse(base) {
        Ok(b) => match b.join(input) {
            Ok(u) => Some(u.into()),
            Err(_) => None,
        },
        Err(_) => None,
    }
}

/// Relies on `url::Url::query_pairs_mut` and `form_urlencoded`'s
/// `append_pair`: appends one form-encoded pair to the query of `url`.
#[verifier::external_body]
fn append_query_pair(url: &str, name: &str, value: &str) -> (r: Option<String>)
    ensures
        match r {
            Some(u) => url_with_pair(url@, name@, value@) == Some(u@),
            None => url_with_pair(url@, name@, value@).is_none(),
        },
{
    match url::Url::parse(url) {
        Ok(mut u) => {
            u.query_pairs_mut().append_pair(name, value);
            Some(u.into())
        },
        Err(_) => None,
    }
}

/// Declares `reqwest::Client` so that the provider can carry its HTTP
/// client; nothing is assumed of what is inside it.
#[verifier::external_type_specification]
#[verifier::external_body]
pub struct ExClient(reqwest::Client);

/// The HTTP status by which the provider refuses a record that it already
/// holds.
pub const CONFLICT: u16 = 422;

/// Settings of the Hetzner DNS provider. The API's base URL is held as its
/// text.
#[derive(Clone, Debug)]
pub struct HetznerConfig {
    pub dns_token: String,
    pub dns_zone_id: String,
    pub api_url: String,
}

/// The Hetzner DNS provider: its settings and the HTTP client that carries
/// its requests.
pub struct HetznerDns {
    pub config: HetznerConfig,
    pub reqwest_client: reqwest::Client,
}

#[derive(Clone, Copy, Debug, PartialEq, Eq, Structural)]
pub enum Method {
    Get,
    Post,
    Delete,
}

/// The body of a create request.
#[derive(Debug)]
pub struct RecordCreate {
    pub zone_id: String,
    pub type_: String,
    pub name: String,
    pub value: String,
    pub ttl: Option<u32>,
}

/// A request to the provider's API, authenticated by the API token.
#[derive(Debug)]
pub struct ProviderRequest {
    pub method: Method,
    pub url: String,
    pub token: String,
    pub body: Option<RecordCreate>,
}

/// A record as the provider lists it.
#[derive(Debug)]
pub struct ListedRecord {
    pub id: String,
    pub name: String,
    pub type_: String,
    pub value: String,
}

/// Why a create or a delete at the provider failed.
#[derive(Clone, Copy, Debug, PartialEq, Eq, Structural)]
pub enum ProviderError {
    /// The endpoint's URL could not be built from the base URL.
    InvalidUrl,
    /// The request could not be sent or its answer not be read.
    Transport,
    /// The provider answered with this error status.
    Status(u16),
    /// A successful create answer carried no record id.
    MissingId,
}

/// What to do after the provider answered a create.
#[derive(Debug)]
pub enum CreateNext {
    /// The record was created under this id.
    Created(String),
    /// The provider reported a conflict: look the record up.
    Recover,
    /// The create failed.
    Failed(ProviderError),
}

/// The mathematical value of a [`CreateNext`].
pub enum CreateVerdict {
    Created(Seq<char>),
    Recover,
    Failed(ProviderError),
}

impl View for CreateNext {
    type V = CreateVerdict;

    open spec fn view(&self) -> CreateVerdict {
        match self {
            CreateNext::Created(id) => CreateVerdict::Created(id@),
            CreateNext::Recover => CreateVerdict::Recover,
            CreateNext::Failed(e) => CreateVerdict::Failed(*e),
        }
    }
}

/// A status that the HTTP client reports as an error: 4xx and 5xx.
pub open spec fn status_fails(status: u16) -> bool {
    400 <= status <= 599
}

/// The verdict on a create: no answer is a transport failure; a conflict
/// asks for recovery; another error status fails; else the answer's id is
/// the result, and an answer without one fails.
pub open spec fn create_verdict(status: Option<u16>, id: Option<Seq<char>>) -> CreateVerdict {
    match status {
        None => CreateVerdict::Failed(ProviderError::Transport),
        Some(s) => if s == CONFLICT {
            CreateVerdict::Recover
        } else if status_fails(s) {
            CreateVerdict::Failed(ProviderError::Status(s))
        } else {
            match id {
                Some(k) => CreateVerdict::Created(k),
                None => CreateVerdict::Failed(ProviderError::MissingId),
            }
        },
    }
}

/// A listed record is the one sought: same name, type and value.
pub open spec fn listed_matches(l: ListedRecord, c: RecordContent) -> bool {
    l.name@ == c.hostname && l.type_@ == c.type_ && l.value@ == c.value
}

/// The id of the first listed record that matches.
pub open spec fn first_match(listing: Seq<ListedRecord>, c: RecordContent) -> Option<Seq<char>>
    decreases listing.len(),
{
    if listing.len() == 0 {
        None
    } else if listed_matches(listing[0], c) {
        Some(listing[0].id@)
    } else {
        first_match(listing.subrange(1, listing.len() as int), c)
    }
}

/// The id that recovery from a conflict finds: the first match of the
/// listing, when the lookup gave one.
pub open spec fn recovered_id(listing: Option<Seq<ListedRecord>>, c: RecordContent) -> Option<
    Seq<char>,
> {
    match listing {
        Some(l) => first_match(l, c),
        None => None,
    }
}

/// The body that creates a record with content `c` in zone `zone`.
pub open spec fn is_create_body(b: RecordCreate, zone: Seq<char>, c: RecordContent) -> bool {
    &&& b.zone_id@ == zone
    &&& b.type_@ == c.type_
    &&& b.name@ == c.hostname
    &&& b.value@ == c.value
    &&& b.ttl == c.ttl
}

/// The endpoint of a single record.
pub open spec fn record_path(id: Seq<char>) -> Seq<char> {
    "records/"@ + id
}

impl HetznerDns {
    pub fn new(config: HetznerConfig, reqwest_client: reqwest::Client) -> (r: HetznerDns)
        ensures
            r.config == config,
    {
        HetznerDns { config, reqwest_client }
    }

    /// The request that creates the record: a POST to the records endpoint
    /// with the zone, type, name, value and ttl.
    pub fn create_request(&self, dns_record: &DnsRecord) -> (r: Result<ProviderRequest, ProviderError>)
        ensures
            match r {
                Ok(req) => {
                    &&& url_joined(self.config.api_url@, "records"@) == Some(req.url@)
                    &&& req.method == Method::Post
                    &&& req.token@ == self.config.dns_token@
                    &&& req.body matches Some(b) && is_create_body(
                        b,
                        self.config.dns_zone_id@,
                        dns_record.content(),
                    )
                },
                Err(e) => e == ProviderError::InvalidUrl && url_joined(
                    self.config.api_url@,
                    "records"@,
                ).is_none(),
            },
    {
        match join_url(self.config.api_url.as_str(), "records") {
            Some(url) => {
                let body = RecordCreate {
                    zone_id: self.config.dns_zone_id.clone(),
                    type_: dns_record.type_.clone(),
                    name: dns_record.hostname.clone(),
                    value: dns_record.value.clone(),
                    ttl: dns_record.ttl,
                };
                Ok(
                    ProviderRequest {
                        method: Method::Post,
                        url,
                        token: self.config.dns_token.clone(),
                        body: Some(body),
                    },
                )
            },
            None => Err(ProviderError::InvalidUrl),
        }
    }

    /// Decides on the provider's answer to a create: `status` is `None` when
    /// no answer came, `id` the record id read from the answer's body.
    pub fn on_create_response(status: Option<u16>, id: Option<String>) -> (r: CreateNext)
        ensures
            r@ == create_verdict(
                status,
                match id {
                    Some(k) => Some(k@),
                    None => None,
                },
            ),
    {
        match status {
            None => CreateNext::Failed(ProviderError::Transport),
            Some(s) => if s == CONFLICT {
                CreateNext::Recover
            } else if 400 <= s && s <= 599 {
                CreateNext::Failed(ProviderError::Status(s))
            } else {
                match id {
                    Some(k) => CreateNext::Created(k),
                    None => CreateNext::Failed(ProviderError::MissingId),
                }
            },
        }
    }

    /// The lookup that recovery from a conflict makes: the records of the
    /// zone searched by the record's hostname.
    pub fn lookup_request(&self, dns_record: &DnsRecord) -> (r: Option<ProviderRequest>)
        ensures
            match r {
                Some(req) => {
                    &&& req.method == Method::Get
                    &&& req.token@ == self.config.dns_token@
                    &&& req.body is None
                    &&& exists|base: Seq<char>, zoned: Seq<char>|
                        url_joined(self.config.api_url@, "records"@) == Some(base)
                            && url_with_pair(base, "zone_id"@, self.config.dns_zone_id@)
                            == Some(zoned) && url_with_pair(
                            zoned,
                            "search_name"@,
                            dns_record.hostname@,
                        ) == Some(req.url@)
                },
                None => url_joined(self.config.api_url@, "records"@).is_none() || ({
                    let base = url_joined(self.config.api_url@, "records"@).unwrap();
                    let zoned = url_with_pair(base, "zone_id"@, self.config.dns_zone_id@);
                    zoned.is_none() || url_with_pair(
                        zoned.unwrap(),
                        "search_name"@,
                        dns_record.hostname@,
                    ).is_none()
                }),
            },
    {
        let base = join_url(self.config.api_url.as_str(), "records");
        let base = match base {
            Some(b) => b,
            None => {
                return None;
            },
        };
        let zoned = match append_query_pair(base.as_str(), "zone_id", self.config.dns_zone_id.as_str()) {
            Some(z) => z,
            None => {
                return None;
            },
        };
        match append_query_pair(zoned.as_str(), "search_name", dns_record.hostname.as_str()) {
            Some(url) => Some(
                ProviderRequest {
                    method: Method::Get,
                    url,
                    token: self.config.dns_token.clone(),
                    body: None,
                },
            ),
            None => None,
        }
    }

    /// The id of the first listed record with the record's hostname, type
    /// and value.
    pub fn check_record_exists(dns_record: &DnsRecord, listing: &Vec<ListedRecord>) -> (r: Option<
        String,
    >)
        ensures
            match r {
                Some(id) => first_match(listing@, dns_record.content()) == Some(id@),
                None => first_match(listing@, dns_record.content()).is_none(),
            },
    {
        let ghost c = dns_record.content();
        assert(listing@.subrange(0, listing@.len() as int) =~= listing@);
        let mut i: usize = 0;
        while i < listing.len()
            invariant
                i <= listing@.len(),
                c == dns_record.content(),
                first_match(listing@, c) == first_match(
                    listing@.subrange(i as int, listing@.len() as int),
                    c,
                ),
            decreases listing@.len() - i,
        {
            let ghost rest = listing@.subrange(i as int, listing@.len() as int);
            let l = &listing[i];
            assert(rest[0] == listing@[i as int]);
            if l.type_ == dns_record.type_ && l.name == dns_record.hostname && l.value
                == dns_record.value {
                return Some(l.id.clone());
            }
            assert(rest.subrange(1, rest.len() as int) =~= listing@.subrange(
                i as int + 1,
                listing@.len() as int,
            ));
            i = i + 1;
        }
        None
    }

    /// Ends recovery from a conflict: the id of the matching listed record,
    /// or the conflict as an error where the lookup failed (`None`) or found
    /// no match.
    pub fn recover(dns_record: &DnsRecord, listing: Option<Vec<ListedRecord>>) -> (r: Result<
        String,
        ProviderError,
    >)
        ensures
            match recovered_id(
                match listing {
                    Some(l) => Some(l@),
                    None => None,
                },
                dns_record.content(),
            ) {
                Some(id) => r matches Ok(k) && k@ == id,
                None => r == Err::<String, ProviderError>(ProviderError::Status(CONFLICT)),
            },
    {
        match listing {
            Some(l) => match HetznerDns::check_record_exists(dns_record, &l) {
                Some(id) => Ok(id),
                None => Err(ProviderError::Status(CONFLICT)),
            },
            None => Err(ProviderError::Status(CONFLICT)),
        }
    }

    /// The request that deletes the record with this id.
    pub fn delete_request(&self, record_id: &String) -> (r: Result<ProviderRequest, ProviderError>)
        ensures
            match r {
                Ok(req) => {
                    &&& url_joined(self.config.api_url@, record_path(record_id@)) == Some(req.url@)
                    &&& req.method == Method::Delete
                    &&& req.token@ == self.config.dns_token@
                    &&& req.body is None
                },
                Err(e) => e == ProviderError::InvalidUrl && url_joined(
                    self.config.api_url@,
                    record_path(record_id@),
                ).is_none(),
            },
    {
        let path = String::from_str("records/").concat(record_id.as_str());
        match join_url(self.config.api_url.as_str(), path.as_str()) {
            Some(url) => Ok(
                ProviderRequest {
                    method: Method::Delete,
                    url,
                    token: self.config.dns_token.clone(),
                    body: None,
                },
            ),
            None => Err(ProviderError::InvalidUrl),
        }
    }

    /// Decides on the provider's answer to a delete: no answer is a transport
    /// failure, an error status (a record not found too) fails, anything
    /// else succeeded.
    pub fn on_delete_response(status: Option<u16>) -> (r: Result<(), ProviderError>)
        ensures
            match status {
                None => r == Err::<(), ProviderError>(ProviderError::Transport),
                Some(s) => if status_fails(s) {
                    r == Err::<(), ProviderError>(ProviderError::Status(s))
                } else {
                    r is Ok
                },
            },
    {
        match status {
            None => Err(ProviderError::Transport),
            Some(s) => if 400 <= s && s <= 599 {
                Err(ProviderError::Status(s))
            } else {
                Ok(())
            },
        }
    }
}

/// The first matching entry of a listing is the one that `first_match`
/// finds.
pub proof fn lemma_first_match_at(listing: Seq<ListedRecord>, c: RecordContent, i: int)
    requires
        0 <= i < listing.len(),
        listed_matches(listing[i], c),
        forall|j: int| 0 <= j < i ==> !listed_matches(#[trigger] listing[j], c),
    ensures
        first_match(listing, c) == Some(listing[i].id@),
    decreases i,
{
    if i > 0 {
        let rest = listing.subrange(1, listing.len() as int);
        assert(!listed_matches(listing[0], c));
        assert forall|j: int| 0 <= j < i - 1 implies !listed_matches(#[trigger] rest[j], c) by {
            assert(rest[j] == listing[j + 1]);
        }
        assert(rest[i - 1] == listing[i]);
        lemma_first_match_at(rest, c, i - 1);
    }
}

/// Recovery from a conflict: when the provider answers a create with a
/// conflict, and the lookup that follows lists a record with the same
/// hostname, type and value, the create ends with that record's id and no
/// error (where several match, with the first of them).
pub proof fn lemma_conflict_recovers_existing_id(
    body_id: Option<Seq<char>>,
    listing: Seq<ListedRecord>,
    c: RecordContent,
    i: int,
)
    requires
        0 <= i < listing.len(),
        listed_matches(listing[i], c),
        forall|j: int| 0 <= j < i ==> !listed_matches(#[trigger] listing[j], c),
    ensures
        create_verdict(Some(CONFLICT), body_id) == CreateVerdict::Recover,
        recovered_id(Some(listing), c) == Some(listing[i].id@),
{
    lemma_first_match_at(listing, c, i);
}

/// Creating the same record twice gives the same id both times and no
/// second record: the first create answered with success and `id`; the
/// provider refuses the second with a conflict, so nothing is posted again,
/// and the lookup, which lists the record once under `id`, gives `id` back.
pub proof fn lemma_repeated_create_returns_same_id(
    first_status: u16,
    id: Seq<char>,
    second_body_id: Option<Seq<char>>,
    listing: Seq<ListedRecord>,
    c: RecordContent,
    i: int,
)
    requires
        !status_fails(first_status),
        first_status != CONFLICT,
        0 <= i < listing.len(),
        listing[i].id@ == id,
        listed_matches(listing[i], c),
        forall|j: int| 0 <= j < listing.len() && j != i ==> !listed_matches(#[trigger] listing[j], c),
    ensures
        create_verdict(Some(first_status), Some(id)) == CreateVerdict::Created(id),
        create_verdict(Some(CONFLICT), second_body_id) == CreateVerdict::Recover,
        recovered_id(Some(listing), c) == Some(id),
{
    lemma_first_match_at(listing, c, i);
}

} // verus!
