use vstd::prelude::*;

verus! {

/// What a record says, without the id that a provider gave it.
pub struct RecordContent {
    pub hostname: Seq<char>,
    pub type_: Seq<char>,
    pub value: Seq<char>,
    pub ttl: Option<u32>,
}

/// The mathematical value of a [`DnsRecord`].
pub struct RecordView {
    pub content: RecordContent,
    pub id: Option<Seq<char>>,
}

/// A DNS record: hostname, type, value, time to live, and the id that the
/// provider assigned to it, when one is known.
#[derive(Debug)]
pub struct DnsRecord {
    pub hostname: String,
    pub type_: String,
    pub value: String,
    pub ttl: Option<u32>,
    pub id: Option<String>,
}

impl View for DnsRecord {
    type V = RecordView;

    open spec fn view(&self) -> RecordView {
        RecordView {
            content: RecordContent {
                hostname: self.hostname@,
                type_: self.type_@,
                value: self.value@,
                ttl: self.ttl,
            },
            id: match self.id {
                Some(s) => Some(s@),
                None => None,
            },
        }
    }
}

impl DnsRecord {
    /// The part of the record that decides whether two records are the same
    /// desired entity.
    pub open spec fn content(&self) -> RecordContent {
        self@.content
    }

    /// A record without a provider id.
    pub fn new(hostname: String, type_: String, value: String, ttl: Option<u32>) -> (r: DnsRecord)
        ensures
            r@.content == (RecordContent { hostname: hostname@, type_: type_@, value: value@, ttl }),
            r@.id.is_none(),
    {
        DnsRecord { hostname, type_, value, ttl, id: None }
    }

    /// Equality for reconciliation: hostname, type, value and ttl; the id is
    /// not compared.
    pub fn same_content(&self, other: &DnsRecord) -> (r: bool)
        ensures
            r == (self.content() == other.content()),
    {
        self.hostname == other.hostname && self.type_ == other.type_ && self.value == other.value
            && self.ttl == other.ttl
    }
}

impl Clone for DnsRecord {
    fn clone(&self) -> (r: DnsRecord)
        ensures
            r@ == self@,
    {
        let id = match &self.id {
            Some(s) => Some(s.clone()),
            None => None,
        };
        DnsRecord {
            hostname: self.hostname.clone(),
            type_: self.type_.clone(),
            value: self.value.clone(),
            ttl: self.ttl,
            id,
        }
    }
}

} // verus!
