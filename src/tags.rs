use vstd::prelude::*;
use vstd::string::StrSliceExecFns;

use crate::diff::views_of;
use crate::record::{DnsRecord, RecordContent, RecordView};

verus! {

/// The largest value a ttl can take.
pub const TTL_MAX: u64 = 0xffff_ffff;

/// What follows `prefix` in `tag`, when `tag` starts with it.
pub open spec fn after_prefix(tag: Seq<char>, prefix: Seq<char>) -> Option<Seq<char>> {
    if prefix.len() <= tag.len() && tag.subrange(0, prefix.len() as int) == prefix {
        Some(tag.subrange(prefix.len() as int, tag.len() as int))
    } else {
        None
    }
}

/// What follows `prefix` in the first tag that starts with it.
pub open spec fn tag_value(tags: Seq<Seq<char>>, prefix: Seq<char>) -> Option<Seq<char>>
    decreases tags.len(),
{
    if tags.len() == 0 {
        None
    } else {
        match after_prefix(tags[0], prefix) {
            Some(v) => Some(v),
            None => tag_value(tags.subrange(1, tags.len() as int), prefix),
        }
    }
}

pub open spec fn is_digit(c: char) -> bool {
    '0' <= c && c <= '9'
}

/// The number that a string of decimal digits writes.
pub open spec fn digits_value(s: Seq<char>) -> int
    decreases s.len(),
{
    if s.len() == 0 {
        0
    } else {
        digits_value(s.drop_last()) * 10 + (s.last() as int - '0' as int)
    }
}

/// The ttl that a tag's value writes: one or more decimal digits whose value
/// fits in `u32`.
pub open spec fn ttl_of(s: Seq<char>) -> Option<u32> {
    if s.len() > 0 && (forall|i: int| 0 <= i < s.len() ==> is_digit(#[trigger] s[i]))
        && digits_value(s) <= TTL_MAX {
        Some(digits_value(s) as u32)
    } else {
        None
    }
}

/// The record that a service's tags describe: hostname, type and value are
/// required; a ttl is optional, but one that is not a valid number drops the
/// record.
pub open spec fn record_of_tags(tags: Seq<Seq<char>>) -> Option<RecordView> {
    let h = tag_value(tags, "external-dns.hostname="@);
    let t = tag_value(tags, "external-dns.type="@);
    let v = tag_value(tags, "external-dns.value="@);
    let l = tag_value(tags, "external-dns.ttl="@);
    if h.is_some() && t.is_some() && v.is_some() && (l.is_none() || ttl_of(l.unwrap()).is_some()) {
        Some(
            RecordView {
                content: RecordContent {
                    hostname: h.unwrap(),
                    type_: t.unwrap(),
                    value: v.unwrap(),
                    ttl: match l {
                        Some(x) => ttl_of(x),
                        None => None,
                    },
                },
                id: None,
            },
        )
    } else {
        None
    }
}

/// The records that a list of services' tags describe, in order, skipping
/// the services that describe none.
pub open spec fn records_of_services(services: Seq<Seq<Seq<char>>>) -> Seq<RecordView>
    decreases services.len(),
{
    if services.len() == 0 {
        Seq::empty()
    } else {
        let rest = records_of_services(services.drop_last());
        match record_of_tags(services.last()) {
            Some(r) => rest.push(r),
            None => rest,
        }
    }
}

pub open spec fn tags_view(tags: Seq<String>) -> Seq<Seq<char>> {
    tags.map_values(|s: String| s@)
}

pub open spec fn services_view(services: Seq<Vec<String>>) -> Seq<Seq<Seq<char>>> {
    services.map_values(|t: Vec<String>| tags_view(t@))
}

/// What follows `prefix` in `tag`, when `tag` starts with it.
pub fn strip_prefix(tag: &str, prefix: &str) -> (r: Option<String>)
    ensures
        match r {
            Some(v) => after_prefix(tag@, prefix@) == Some(v@),
            None => after_prefix(tag@, prefix@).is_none(),
        },
{
    let n = tag.unicode_len();
    let p = prefix.unicode_len();
    if p > n {
        return None;
    }
    let mut i: usize = 0;
    while i < p
        invariant
            p == prefix@.len(),
            n == tag@.len(),
            p <= n,
            i <= p,
            forall|j: int| 0 <= j < i ==> tag@[j] == prefix@[j],
        decreases p - i,
    {
        if tag.get_char(i) != prefix.get_char(i) {
            assert(tag@.subrange(0, p as int)[i as int] != prefix@[i as int]);
            return None;
        }
        i = i + 1;
    }
    assert(tag@.subrange(0, p as int) =~= prefix@);
    let rest = tag.substring_char(p, n);
    Some(String::from_str(rest))
}

/// The value of the first tag that starts with `prefix`.
pub fn find_tag_value(tags: &Vec<String>, prefix: &str) -> (r: Option<String>)
    ensures
        match r {
            Some(v) => tag_value(tags_view(tags@), prefix@) == Some(v@),
            None => tag_value(tags_view(tags@), prefix@).is_none(),
        },
{
    let ghost all = tags_view(tags@);
    assert(all.subrange(0, all.len() as int) =~= all);
    let mut i: usize = 0;
    while i < tags.len()
        invariant
            all == tags_view(tags@),
            i <= tags@.len(),
            tag_value(all, prefix@) == tag_value(all.subrange(i as int, all.len() as int), prefix@),
        decreases tags@.len() - i,
    {
        let ghost rest = all.subrange(i as int, all.len() as int);
        assert(rest[0] == tags@[i as int]@);
        match strip_prefix(tags[i].as_str(), prefix) {
            Some(v) => {
                return Some(v);
            },
            None => {},
        }
        assert(rest.subrange(1, rest.len() as int) =~= all.subrange(i as int + 1, all.len() as int));
        i = i + 1;
    }
    None
}

/// The ttl that `s` writes, when it is one or more decimal digits whose value
/// fits in `u32`.
pub fn parse_ttl(s: &str) -> (r: Option<u32>)
    ensures
        r == ttl_of(s@),
{
    let n = s.unicode_len();
    if n == 0 {
        return None;
    }
    let cap: u64 = TTL_MAX + 1;
    let mut acc: u64 = 0;
    let mut i: usize = 0;
    while i < n
        invariant
            n == s@.len(),
            i <= n,
            cap == TTL_MAX + 1,
            forall|j: int| 0 <= j < i ==> is_digit(#[trigger] s@[j]),
            acc == if digits_value(s@.subrange(0, i as int)) > TTL_MAX {
                cap as int
            } else {
                digits_value(s@.subrange(0, i as int))
            },
            digits_value(s@.subrange(0, i as int)) >= 0,
        decreases n - i,
    {
        let c = s.get_char(i);
        if c < '0' || c > '9' {
            return None;
        }
        let d = (c as u32 - '0' as u32) as u64;
        let ghost pre = s@.subrange(0, i as int);
        let ghost next = s@.subrange(0, i as int + 1);
        assert(next.drop_last() =~= pre);
        assert(next.last() == c);
        assert(digits_value(next) == digits_value(pre) * 10 + d);
        if acc == cap {
            acc = cap;
        } else {
            let v = acc * 10 + d;
            if v > TTL_MAX {
                acc = cap;
            } else {
                acc = v;
            }
        }
        i = i + 1;
    }
    assert(s@.subrange(0, n as int) =~= s@);
    if acc > TTL_MAX {
        None
    } else {
        Some(acc as u32)
    }
}

/// The record that one service's tags describe.
pub fn record_from_tags(tags: &Vec<String>) -> (r: Option<DnsRecord>)
    ensures
        match r {
            Some(rec) => record_of_tags(tags_view(tags@)) == Some(rec@),
            None => record_of_tags(tags_view(tags@)).is_none(),
        },
{
    let h = find_tag_value(tags, "external-dns.hostname=");
    let t = find_tag_value(tags, "external-dns.type=");
    let v = find_tag_value(tags, "external-dns.value=");
    let l = find_tag_value(tags, "external-dns.ttl=");
    let ttl = match &l {
        Some(x) => match parse_ttl(x.as_str()) {
            Some(n) => Some(n),
            None => {
                return None;
            },
        },
        None => None,
    };
    match (h, t, v) {
        (Some(h), Some(t), Some(v)) => Some(DnsRecord::new(h, t, v, ttl)),
        _ => None,
    }
}

/// The records that the services' tags describe, one per service that
/// describes one, in the services' order.
pub fn desired_records(services: &Vec<Vec<String>>) -> (r: Vec<DnsRecord>)
    ensures
        views_of(r@) == records_of_services(services_view(services@)),
{
    let mut r: Vec<DnsRecord> = Vec::new();
    let mut i: usize = 0;
    while i < services.len()
        invariant
            i <= services@.len(),
            views_of(r@) == records_of_services(services_view(services@.subrange(0, i as int))),
        decreases services@.len() - i,
    {
        let ghost pre = services_view(services@.subrange(0, i as int));
        let ghost next = services_view(services@.subrange(0, i as int + 1));
        assert(next.drop_last() =~= pre);
        assert(next.last() == tags_view(services@[i as int]@));
        match record_from_tags(&services[i]) {
            Some(rec) => {
                r.push(rec);
                assert(views_of(r@) =~= records_of_services(pre).push(r@.last()@));
            },
            None => {},
        }
        i = i + 1;
    }
    assert(services@.subrange(0, services@.len() as int) =~= services@);
    r
}

} // verus!
