//! DNS prober, verified half. The surrounding application owns the
//! resolver and performs one lookup per query; this module decides which
//! lookup a query type stands for, normalizes the resolver's answers into
//! the uniform record shape, and assembles the query result. `CNAME`,
//! `SOA`, `PTR` and `ALL` queries deliberately fall back to an address
//! lookup — a documented limitation of the engine, deliberate and
//! visible in the reported query type.

use vstd::prelude::*;

verus! {

use crate::text::{fmt_u64, spec_udec, str_eq};
use vstd::string::{StrSliceExecFns, StringExecFns};

/// Default time-to-live reported when the resolver supplies none.
pub const DEFAULT_TTL: u32 = 300;

/// The record types a query can ask for.
#[derive(Clone, Copy, Debug, PartialEq, Eq, Structural)]
pub enum DnsQueryType {
    A,
    AAAA,
    CNAME,
    MX,
    TXT,
    NS,
    SOA,
    PTR,
    ALL,
}

/// Which resolver call a query type is served by.
#[derive(Clone, Copy, Debug, PartialEq, Eq, Structural)]
pub enum LookupKind {
    /// A generic address lookup, filtered to IPv4 answers.
    AddressesV4,
    /// A generic address lookup, filtered to IPv6 answers.
    AddressesV6,
    /// A mail-exchanger lookup.
    MailExchangers,
    /// A text-record lookup.
    TextRecords,
    /// A name-server lookup.
    NameServers,
}

impl DnsQueryType {
    /// The type's canonical name.
    pub open spec fn spec_name(self) -> Seq<char> {
        match self {
            DnsQueryType::A => "A"@,
            DnsQueryType::AAAA => "AAAA"@,
            DnsQueryType::CNAME => "CNAME"@,
            DnsQueryType::MX => "MX"@,
            DnsQueryType::TXT => "TXT"@,
            DnsQueryType::NS => "NS"@,
            DnsQueryType::SOA => "SOA"@,
            DnsQueryType::PTR => "PTR"@,
            DnsQueryType::ALL => "ALL"@,
        }
    }

    /// The type actually looked up: `CNAME`, `SOA`, `PTR` and `ALL` fall
    /// back to an address query.
    pub open spec fn effective(self) -> DnsQueryType {
        match self {
            DnsQueryType::CNAME => DnsQueryType::A,
            DnsQueryType::SOA => DnsQueryType::A,
            DnsQueryType::PTR => DnsQueryType::A,
            DnsQueryType::ALL => DnsQueryType::A,
            other => other,
        }
    }

    /// The type's canonical name, as text.
    pub fn as_str(&self) -> (r: &'static str)
        ensures
            r@ == self.spec_name(),
    {
        match self {
            DnsQueryType::A => "A",
            DnsQueryType::AAAA => "AAAA",
            DnsQueryType::CNAME => "CNAME",
            DnsQueryType::MX => "MX",
            DnsQueryType::TXT => "TXT",
            DnsQueryType::NS => "NS",
            DnsQueryType::SOA => "SOA",
            DnsQueryType::PTR => "PTR",
            DnsQueryType::ALL => "ALL",
        }
    }

    /// Resolve the documented fallback: the type whose lookup is made.
    pub fn effective_type(&self) -> (r: DnsQueryType)
        ensures
            r == self.effective(),
    {
        match self {
            DnsQueryType::CNAME => DnsQueryType::A,
            DnsQueryType::SOA => DnsQueryType::A,
            DnsQueryType::PTR => DnsQueryType::A,
            DnsQueryType::ALL => DnsQueryType::A,
            other => *other,
        }
    }

    /// Which resolver call serves this query type (after the fallback).
    pub fn lookup_kind(&self) -> (r: LookupKind)
        ensures
            self.effective() == DnsQueryType::A ==> r == LookupKind::AddressesV4,
            self.effective() == DnsQueryType::AAAA ==> r == LookupKind::AddressesV6,
            self.effective() == DnsQueryType::MX ==> r == LookupKind::MailExchangers,
            self.effective() == DnsQueryType::TXT ==> r == LookupKind::TextRecords,
            self.effective() == DnsQueryType::NS ==> r == LookupKind::NameServers,
    {
        match self.effective_type() {
            DnsQueryType::AAAA => LookupKind::AddressesV6,
            DnsQueryType::MX => LookupKind::MailExchangers,
            DnsQueryType::TXT => LookupKind::TextRecords,
            DnsQueryType::NS => LookupKind::NameServers,
            _ => LookupKind::AddressesV4,
        }
    }

    /// Parse a type name, written exactly as its canonical form. Unknown
    /// names yield `None`; callers that default route `None` to `A`.
    pub fn from_name(s: &str) -> (r: Option<DnsQueryType>)
        ensures
            r == DnsQueryType::spec_parse_name(s@),
    {
        if str_eq(s, "A") {
            Some(DnsQueryType::A)
        } else if str_eq(s, "AAAA") {
            Some(DnsQueryType::AAAA)
        } else if str_eq(s, "CNAME") {
            Some(DnsQueryType::CNAME)
        } else if str_eq(s, "MX") {
            Some(DnsQueryType::MX)
        } else if str_eq(s, "TXT") {
            Some(DnsQueryType::TXT)
        } else if str_eq(s, "NS") {
            Some(DnsQueryType::NS)
        } else if str_eq(s, "SOA") {
            Some(DnsQueryType::SOA)
        } else if str_eq(s, "PTR") {
            Some(DnsQueryType::PTR)
        } else if str_eq(s, "ALL") {
            Some(DnsQueryType::ALL)
        } else {
            None
        }
    }

    /// The query type a canonical name stands for, if any.
    pub open spec fn spec_parse_name(s: Seq<char>) -> Option<DnsQueryType> {
        if s == "A"@ {
            Some(DnsQueryType::A)
        } else if s == "AAAA"@ {
            Some(DnsQueryType::AAAA)
        } else if s == "CNAME"@ {
            Some(DnsQueryType::CNAME)
        } else if s == "MX"@ {
            Some(DnsQueryType::MX)
        } else if s == "TXT"@ {
            Some(DnsQueryType::TXT)
        } else if s == "NS"@ {
            Some(DnsQueryType::NS)
        } else if s == "SOA"@ {
            Some(DnsQueryType::SOA)
        } else if s == "PTR"@ {
            Some(DnsQueryType::PTR)
        } else if s == "ALL"@ {
            Some(DnsQueryType::ALL)
        } else {
            None
        }
    }
}

/// One normalized answer record.
#[derive(Clone, Debug, PartialEq, Eq)]
pub struct DnsRecord {
    /// The record type tag, e.g. `A` or `MX`.
    pub record_type: String,
    /// The record's rendered value.
    pub value: String,
    /// Time-to-live in seconds.
    pub ttl: u32,
}

/// Configuration of one DNS query.
#[derive(Clone, Debug, PartialEq, Eq)]
pub struct DnsConfig {
    /// The domain asked about.
    pub domain: String,
    /// The record type asked for.
    pub query_type: DnsQueryType,
    /// An explicit nameserver, when the default resolver is not wanted.
    pub nameserver: Option<String>,
    /// Lookup deadline, in milliseconds.
    pub timeout_ms: u64,
}

impl Default for DnsConfig {
    /// The documented defaults: an `A` query with a 5 s deadline.
    fn default() -> (r: Self)
        ensures
            r.domain@ == Seq::<char>::empty(),
            r.query_type == DnsQueryType::A,
            r.nameserver is None,
            r.timeout_ms == 5000,
    {
        DnsConfig {
            domain: String::new(),
            query_type: DnsQueryType::A,
            nameserver: None,
            timeout_ms: 5000,
        }
    }
}

/// Result of one DNS query.
#[derive(Clone, Debug, PartialEq, Eq)]
pub struct DnsQueryResult {
    /// The domain asked about.
    pub domain: String,
    /// Canonical name of the type that was looked up.
    pub query_type: String,
    /// The normalized answers, in resolver order, duplicates kept.
    pub records: Vec<DnsRecord>,
    /// How long the lookup took, in microseconds.
    pub response_time_micros: u64,
    /// When the query was captured, in milliseconds since the Unix epoch.
    pub timestamp_ms: u64,
}

/// The address texts of one family, in answer order: of each `(is_v4,
/// text)` answer, those whose family flag matches.
pub open spec fn spec_family_values(addrs: Seq<(bool, String)>, want_v4: bool) -> Seq<String>
    decreases addrs.len(),
{
    if addrs.len() == 0 {
        Seq::empty()
    } else {
        let rest = spec_family_values(addrs.drop_last(), want_v4);
        if addrs.last().0 == want_v4 {
            rest.push(addrs.last().1)
        } else {
            rest
        }
    }
}

/// Keep the address answers of one family, in order. Each answer is a
/// `(is_v4, address text)` pair as the application read it off the
/// resolver.
pub fn filter_family(addrs: &Vec<(bool, String)>, want_v4: bool) -> (r: Vec<String>)
    ensures
        r@ == spec_family_values(addrs@, want_v4),
{
    let mut r: Vec<String> = Vec::new();
    let mut i: usize = 0;
    while i < addrs.len()
        invariant
            0 <= i <= addrs@.len(),
            r@ == spec_family_values(addrs@.subrange(0, i as int), want_v4),
        decreases addrs@.len() - i,
    {
        proof {
            assert(addrs@.subrange(0, i + 1 as int).drop_last() =~= addrs@.subrange(0, i as int));
        }
        if addrs[i].0 == want_v4 {
            r.push(addrs[i].1.clone());
        }
        i = i + 1;
    }
    proof {
        assert(addrs@.subrange(0, addrs@.len() as int) =~= addrs@);
    }
    r
}

/// Wrap plain answer values as records of the given type, in order, with
/// the default time-to-live.
pub fn records_from_values(values: &Vec<String>, record_type: &str) -> (r: Vec<DnsRecord>)
    ensures
        r@.len() == values@.len(),
        forall|i: int|
            0 <= i < r@.len() ==> {
                &&& (#[trigger] r@[i]).record_type@ == record_type@
                &&& r@[i].value == values@[i]
                &&& r@[i].ttl == DEFAULT_TTL
            },
{
    let mut r: Vec<DnsRecord> = Vec::new();
    let mut i: usize = 0;
    while i < values.len()
        invariant
            0 <= i <= values@.len(),
            r@.len() == i,
            forall|k: int|
                0 <= k < i ==> {
                    &&& (#[trigger] r@[k]).record_type@ == record_type@
                    &&& r@[k].value == values@[k]
                    &&& r@[k].ttl == DEFAULT_TTL
                },
        decreases values@.len() - i,
    {
        r.push(
            DnsRecord {
                record_type: record_type.to_owned(),
                value: values[i].clone(),
                ttl: DEFAULT_TTL,
            },
        );
        i = i + 1;
    }
    r
}

/// The rendered value of one mail-exchanger answer.
pub open spec fn spec_mx_value(preference: u16, exchange: Seq<char>) -> Seq<char> {
    exchange + " (priority: "@ + spec_udec(preference as nat) + ")"@
}

/// Normalize mail-exchanger answers: each `(preference, exchange)` pair
/// becomes an `MX` record whose value names the exchanger and its
/// priority, in answer order, with the default time-to-live.
pub fn normalize_mx(entries: &Vec<(u16, String)>) -> (r: Vec<DnsRecord>)
    ensures
        r@.len() == entries@.len(),
        forall|i: int|
            0 <= i < r@.len() ==> {
                &&& (#[trigger] r@[i]).record_type@ == "MX"@
                &&& r@[i].value@ == spec_mx_value(entries@[i].0, entries@[i].1@)
                &&& r@[i].ttl == DEFAULT_TTL
            },
{
    let mut r: Vec<DnsRecord> = Vec::new();
    let mut i: usize = 0;
    while i < entries.len()
        invariant
            0 <= i <= entries@.len(),
            r@.len() == i,
            forall|k: int|
                0 <= k < i ==> {
                    &&& (#[trigger] r@[k]).record_type@ == "MX"@
                    &&& r@[k].value@ == spec_mx_value(entries@[k].0, entries@[k].1@)
                    &&& r@[k].ttl == DEFAULT_TTL
                },
        decreases entries@.len() - i,
    {
        let preference = entries[i].0;
        let value = entries[i].1.clone().concat(" (priority: ").concat(
            fmt_u64(preference as u64).as_str(),
        ).concat(")");
        r.push(DnsRecord { record_type: String::from_str("MX"), value, ttl: DEFAULT_TTL });
        i = i + 1;
    }
    r
}

/// Assemble the result of one query from its normalized records.
pub fn build_query_result(
    domain: String,
    query_type: DnsQueryType,
    records: Vec<DnsRecord>,
    response_time_micros: u64,
    timestamp_ms: u64,
) -> (r: DnsQueryResult)
    ensures
        r.domain == domain,
        r.query_type@ == query_type.spec_name(),
        r.records == records,
        r.response_time_micros == response_time_micros,
        r.timestamp_ms == timestamp_ms,
{
    DnsQueryResult {
        domain,
        query_type: query_type.as_str().to_owned(),
        records,
        response_time_micros,
        timestamp_ms,
    }
}

/// The plain answer values of a resolution, in record order: what the
/// address-resolution convenience call hands back.
pub fn record_values(records: &Vec<DnsRecord>) -> (r: Vec<String>)
    ensures
        r@.len() == records@.len(),
        forall|i: int| 0 <= i < r@.len() ==> r@[i] == (#[trigger] records@[i]).value,
{
    let mut r: Vec<String> = Vec::new();
    let mut i: usize = 0;
    while i < records.len()
        invariant
            0 <= i <= records@.len(),
            r@.len() == i,
            forall|k: int| 0 <= k < i ==> r@[k] == (#[trigger] records@[k]).value,
        decreases records@.len() - i,
    {
        r.push(records[i].value.clone());
        i = i + 1;
    }
    r
}

} // verus!
