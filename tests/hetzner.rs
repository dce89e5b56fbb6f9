use consul_external_dns::hetzner_dns::{
    CreateNext, HetznerConfig, HetznerDns, ListedRecord, Method, ProviderError,
};
use consul_external_dns::record::DnsRecord;

fn dns(api_url: &str) -> HetznerDns {
    HetznerDns::new(
        HetznerConfig {
            dns_token: "fake_token".to_string(),
            dns_zone_id: "fake_zone_id".to_string(),
            api_url: api_url.to_string(),
        },
        reqwest::Client::new(),
    )
}

fn record() -> DnsRecord {
    DnsRecord::new(
        "new.example.com".to_string(),
        "A".to_string(),
        "192.168.0.1".to_string(),
        Some(300),
    )
}

fn listed(id: &str, name: &str, type_: &str, value: &str) -> ListedRecord {
    ListedRecord {
        id: id.to_string(),
        name: name.to_string(),
        type_: type_.to_string(),
        value: value.to_string(),
    }
}

#[test]
fn test_create_non_existing_dns_record() {
    let d = dns("https://dns.hetzner.com/api/v1/");
    let req = d.create_request(&record()).unwrap();
    assert_eq!(req.method, Method::Post);
    assert_eq!(req.url, "https://dns.hetzner.com/api/v1/records");
    assert_eq!(req.token, "fake_token");
    let body = req.body.unwrap();
    assert_eq!(body.zone_id, "fake_zone_id");
    assert_eq!(body.type_, "A");
    assert_eq!(body.name, "new.example.com");
    assert_eq!(body.value, "192.168.0.1");
    assert_eq!(body.ttl, Some(300));
    let next = HetznerDns::on_create_response(Some(200), Some("rec1".to_string()));
    assert!(matches!(next, CreateNext::Created(ref id) if id == "rec1"));
}

#[test]
fn create_with_invalid_base_url_fails() {
    let d = dns("not a url");
    assert!(matches!(d.create_request(&record()), Err(ProviderError::InvalidUrl)));
    assert!(matches!(
        d.delete_request(&"x".to_string()),
        Err(ProviderError::InvalidUrl)
    ));
    assert!(d.lookup_request(&record()).is_none());
}

#[test]
fn create_answers() {
    assert!(matches!(
        HetznerDns::on_create_response(None, None),
        CreateNext::Failed(ProviderError::Transport)
    ));
    assert!(matches!(
        HetznerDns::on_create_response(Some(422), None),
        CreateNext::Recover
    ));
    assert!(matches!(
        HetznerDns::on_create_response(Some(500), Some("x".to_string())),
        CreateNext::Failed(ProviderError::Status(500))
    ));
    assert!(matches!(
        HetznerDns::on_create_response(Some(401), None),
        CreateNext::Failed(ProviderError::Status(401))
    ));
    assert!(matches!(
        HetznerDns::on_create_response(Some(200), None),
        CreateNext::Failed(ProviderError::MissingId)
    ));
}

#[test]
fn conflict_recovers_existing_id() {
    let listing = vec![
        listed("other", "new.example.com", "AAAA", "::1"),
        listed("wrong-value", "new.example.com", "A", "192.168.0.2"),
        listed("existing", "new.example.com", "A", "192.168.0.1"),
        listed("later", "new.example.com", "A", "192.168.0.1"),
    ];
    assert!(matches!(
        HetznerDns::on_create_response(Some(422), None),
        CreateNext::Recover
    ));
    assert_eq!(
        HetznerDns::recover(&record(), Some(listing)),
        Ok("existing".to_string())
    );
}

#[test]
fn conflict_without_match_fails() {
    let listing = vec![listed("other", "new.example.com", "A", "10.0.0.9")];
    assert_eq!(
        HetznerDns::recover(&record(), Some(listing)),
        Err(ProviderError::Status(422))
    );
    assert_eq!(
        HetznerDns::recover(&record(), None),
        Err(ProviderError::Status(422))
    );
}

#[test]
fn repeated_create_returns_same_id() {
    let first = HetznerDns::on_create_response(Some(200), Some("rec7".to_string()));
    let first_id = match first {
        CreateNext::Created(id) => id,
        _ => panic!("first create should succeed"),
    };
    let second = HetznerDns::on_create_response(Some(422), None);
    assert!(matches!(second, CreateNext::Recover));
    let listing = vec![listed("rec7", "new.example.com", "A", "192.168.0.1")];
    assert_eq!(HetznerDns::recover(&record(), Some(listing)), Ok(first_id));
}

#[test]
fn check_record_exists_needs_name_type_and_value() {
    let listing = vec![listed("x", "other.example.com", "A", "192.168.0.1")];
    assert_eq!(HetznerDns::check_record_exists(&record(), &listing), None);
    assert_eq!(HetznerDns::check_record_exists(&record(), &vec![]), None);
}

#[test]
fn lookup_searches_zone_by_hostname() {
    let d = dns("https://dns.hetzner.com/api/v1/");
    let req = d.lookup_request(&record()).unwrap();
    assert_eq!(req.method, Method::Get);
    assert_eq!(
        req.url,
        "https://dns.hetzner.com/api/v1/records?zone_id=fake_zone_id&search_name=new.example.com"
    );
    assert_eq!(req.token, "fake_token");
    assert!(req.body.is_none());
}

#[test]
fn lookup_encodes_query_values() {
    let d = HetznerDns::new(
        HetznerConfig {
            dns_token: "t".to_string(),
            dns_zone_id: "a b&c".to_string(),
            api_url: "http://localhost:8080/".to_string(),
        },
        reqwest::Client::new(),
    );
    let req = d.lookup_request(&record()).unwrap();
    assert_eq!(
        req.url,
        "http://localhost:8080/records?zone_id=a+b%26c&search_name=new.example.com"
    );
}

#[test]
fn delete_targets_record_endpoint() {
    let d = dns("https://dns.hetzner.com/api/v1/");
    let req = d.delete_request(&"abc123".to_string()).unwrap();
    assert_eq!(req.method, Method::Delete);
    assert_eq!(req.url, "https://dns.hetzner.com/api/v1/records/abc123");
    assert!(req.body.is_none());
}

#[test]
fn delete_answers() {
    assert_eq!(HetznerDns::on_delete_response(Some(200)), Ok(()));
    assert_eq!(
        HetznerDns::on_delete_response(Some(404)),
        Err(ProviderError::Status(404))
    );
    assert_eq!(
        HetznerDns::on_delete_response(None),
        Err(ProviderError::Transport)
    );
}
