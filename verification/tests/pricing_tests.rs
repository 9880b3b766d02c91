use ec2_instance_manager::filter::{apply_type_filter, sort_instance_types_by_name};
use ec2_instance_manager::instance::InstanceTypeInfo;
use ec2_instance_manager::prices::PriceTable;
use ec2_instance_manager::pricing::{extract_on_demand_entry, parse_price_micros};

fn names(v: &[&str]) -> Vec<String> {
    v.iter().map(|s| s.to_string()).collect()
}

#[test]
fn test_parse_price_exact_values() {
    assert_eq!(parse_price_micros("0.0104"), Some(10400));
    assert_eq!(parse_price_micros("0.0104000000"), Some(10400));
    assert_eq!(parse_price_micros("3.06"), Some(3060000));
    assert_eq!(parse_price_micros("12"), Some(12000000));
    assert_eq!(parse_price_micros("0"), Some(0));
    assert_eq!(parse_price_micros(".5"), Some(500000));
    assert_eq!(parse_price_micros("5."), Some(5000000));
    assert_eq!(parse_price_micros("0.1234567"), Some(123456));
}

#[test]
fn test_parse_price_rejects_malformed() {
    assert_eq!(parse_price_micros(""), None);
    assert_eq!(parse_price_micros("."), None);
    assert_eq!(parse_price_micros("1.2.3"), None);
    assert_eq!(parse_price_micros("abc"), None);
    assert_eq!(parse_price_micros("1,5"), None);
    assert_eq!(parse_price_micros("-1"), None);
    assert_eq!(parse_price_micros("99999999999999999999"), None);
}

// The price cache merges field by field: a spot price never disturbs a
// cached on-demand price and the other way round; the last write wins.
#[test]
fn test_price_merge_per_field() {
    let mut t = PriceTable::new();
    assert!(t.is_empty());
    t.merge_on_demand(&vec![("t3.micro".to_string(), 10400u64)]);
    t.merge_spot(&vec![("t3.micro".to_string(), 3100u64)]);
    let p = t.get("t3.micro").unwrap();
    assert_eq!(p.on_demand, Some(10400));
    assert_eq!(p.spot, Some(3100));

    t.merge_on_demand(&vec![("t3.micro".to_string(), 10500u64)]);
    let p = t.get("t3.micro").unwrap();
    assert_eq!(p.on_demand, Some(10500));
    assert_eq!(p.spot, Some(3100));
    assert!(!t.is_empty());
    assert_eq!(t.get("absent"), None);
}

// The ranked candidates: ascending on-demand price, unknown prices last,
// ties broken alphabetically.
#[test]
fn test_type_filter_ranking() {
    let mut prices = PriceTable::new();
    prices.merge_on_demand(&vec![
        ("m5.large".to_string(), 96000u64),
        ("t3.micro".to_string(), 10400u64),
        ("t3.small".to_string(), 10400u64),
    ]);
    let all = names(&["zz.huge", "t3.small", "m5.large", "a1.metal", "t3.micro"]);
    let ranked = apply_type_filter(&all, "", &prices);
    assert_eq!(
        ranked,
        names(&["t3.micro", "t3.small", "m5.large", "a1.metal", "zz.huge"])
    );
}

// Filtering by a substring keeps exactly the matching names; an empty
// input restores the full set.
#[test]
fn test_type_filter_substring_and_reset() {
    let prices = PriceTable::new();
    let all = names(&["t3.micro", "t3a.micro", "m5.large"]);
    let micro = apply_type_filter(&all, "micro", &prices);
    assert_eq!(micro, names(&["t3.micro", "t3a.micro"]));
    let none = apply_type_filter(&all, "xyz", &prices);
    assert!(none.is_empty());
    let full = apply_type_filter(&all, "", &prices);
    assert_eq!(full.len(), all.len());
    for n in &all {
        assert!(full.contains(n));
    }
}

// One real price-list document: the type name and the USD rate come out.
#[test]
fn test_extract_on_demand_entry() {
    let doc = "{\"product\":{\"attributes\":{\"instanceType\":\"t3.micro\"}},\"terms\":{\"OnDemand\":{\"ABC.JRTCKXETXF\":{\"priceDimensions\":{\"ABC.JRTCKXETXF.6YS6EN2CT7\":{\"pricePerUnit\":{\"USD\":\"0.0104000000\"}}}}}}}";
    assert_eq!(
        extract_on_demand_entry(doc),
        Some(("t3.micro".to_string(), 10400u64))
    );
}

// Documents lacking a member, or with an unparsable rate, yield nothing.
#[test]
fn test_extract_on_demand_entry_rejects() {
    assert_eq!(extract_on_demand_entry("not json"), None);
    assert_eq!(extract_on_demand_entry("{}"), None);
    assert_eq!(
        extract_on_demand_entry(
            "{\"product\":{\"attributes\":{\"instanceType\":\"t3.micro\"}},\"terms\":{}}"
        ),
        None
    );
    let bad_rate = "{\"product\":{\"attributes\":{\"instanceType\":\"t3.micro\"}},\"terms\":{\"OnDemand\":{\"A\":{\"priceDimensions\":{\"B\":{\"pricePerUnit\":{\"USD\":\"n/a\"}}}}}}}";
    assert_eq!(extract_on_demand_entry(bad_rate), None);
}

// The instance-type metadata sort orders by ascending type name.
#[test]
fn test_sort_instance_types_by_name() {
    let mut types: Vec<InstanceTypeInfo> = ["t3.micro", "a1.large", "m5.large"]
        .iter()
        .map(|n| InstanceTypeInfo {
            name: n.to_string(),
            architectures: vec!["x86_64".to_string()],
            vcpu: None,
            memory_mib: None,
        })
        .collect();
    sort_instance_types_by_name(&mut types);
    let ordered: Vec<String> = types.iter().map(|t| t.name.clone()).collect();
    assert_eq!(ordered, names(&["a1.large", "m5.large", "t3.micro"]));
}
