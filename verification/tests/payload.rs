use cassiopeia::json::{Json, JsonNumber, Member};
use cassiopeia::repo::osdr_repo::OsdrRepo;
use cassiopeia::clients::nasa_client::NasaClient;
use cassiopeia::services::osdr_service::{
    describe, extract_string, extract_timestamp, items, OsdrService, RawItem,
};
use cassiopeia::time::Timestamp;

fn s(text: &str) -> Json {
    Json::Str(String::from(text))
}

fn n(value: u64) -> Json {
    Json::Number(JsonNumber::PosInt(value))
}

fn object(members: Vec<(&str, Json)>) -> Json {
    Json::Object(
        members.into_iter().map(|(name, value)| Member { name: String::from(name), value }).collect(),
    )
}

fn now() -> Timestamp {
    Timestamp { secs: 1_714_557_600, nanos: 0 }
}

fn same(a: &Json, b: &Json) -> bool {
    format!("{:?}", a) == format!("{:?}", b)
}

#[test]
fn the_first_candidate_that_offers_a_text_wins() {
    let item = object(vec![("name", s("by name")), ("id", n(42)), ("title", s(""))]);
    assert_eq!(extract_string(&item, &["title", "name", "label"]), Some(String::from("by name")));
    assert_eq!(extract_string(&item, &["name", "title"]), Some(String::from("by name")));
    assert_eq!(extract_string(&item, &["dataset_id", "id"]), Some(String::from("42")));
    assert_eq!(extract_string(&item, &["title"]), None);
    assert_eq!(extract_string(&item, &[]), None);
    assert_eq!(extract_string(&item, &["missing", "also missing"]), None);
}

#[test]
fn numbers_are_read_as_they_are_written() {
    let item = object(vec![
        ("big", n(u64::MAX)),
        ("neg", Json::Number(JsonNumber::NegInt(i64::MIN))),
        ("minus", Json::Number(JsonNumber::NegInt(-7))),
        ("zero", n(0)),
        ("real", Json::Number(JsonNumber::Real(String::from("1.5e3")))),
        ("flag", Json::Bool(true)),
        ("none", Json::Null),
        ("list", Json::Array(vec![s("x")])),
    ]);
    assert_eq!(extract_string(&item, &["big"]), Some(String::from("18446744073709551615")));
    assert_eq!(extract_string(&item, &["neg"]), Some(String::from("-9223372036854775808")));
    assert_eq!(extract_string(&item, &["minus"]), Some(String::from("-7")));
    assert_eq!(extract_string(&item, &["zero"]), Some(String::from("0")));
    assert_eq!(extract_string(&item, &["real"]), Some(String::from("1.5e3")));
    assert_eq!(extract_string(&item, &["flag", "none", "list"]), None);
}

#[test]
fn only_objects_have_members() {
    assert_eq!(extract_string(&s("title"), &["title"]), None);
    assert_eq!(extract_string(&Json::Array(vec![object(vec![("title", s("t"))])]), &["title"]), None);
    assert!(s("x").get("x").is_none());
    assert_eq!(s("x").as_str(), Some("x"));
    assert_eq!(n(1).as_str(), None);
    assert!(n(1).is_number());
    assert!(!s("1").is_number());
    assert!(object(vec![]).is_object());
}

#[test]
fn the_first_member_of_a_name_is_the_one_that_is_read() {
    let item = object(vec![("k", s("first")), ("k", s("second"))]);
    assert_eq!(item.get("k").and_then(|v| v.as_str()), Some("first"));
    let changed = item.with_member(String::from("k"), s("third"));
    assert!(same(&changed, &object(vec![("k", s("third")), ("k", s("second"))])));
}

#[test]
fn setting_a_member_replaces_it_or_adds_it_at_the_end() {
    let item = object(vec![("a", n(1)), ("b", n(2))]);
    let replaced = item.with_member(String::from("a"), n(9));
    assert!(same(&replaced, &object(vec![("a", n(9)), ("b", n(2))])));
    let added = replaced.with_member(String::from("c"), n(3));
    assert!(same(&added, &object(vec![("a", n(9)), ("b", n(2)), ("c", n(3))])));
    assert!(same(&n(5).with_member(String::from("a"), n(1)), &n(5)));
}

#[test]
fn integers_are_read_where_they_fit() {
    assert_eq!(n(5).as_i64(), Some(5));
    assert_eq!(n(i64::MAX as u64).as_i64(), Some(i64::MAX));
    assert_eq!(n(i64::MAX as u64 + 1).as_i64(), None);
    assert_eq!(Json::Number(JsonNumber::NegInt(-3)).as_i64(), Some(-3));
    assert_eq!(Json::Number(JsonNumber::Real(String::from("3.0"))).as_i64(), None);
    assert_eq!(s("3").as_i64(), None);
}

#[test]
fn instants_are_read_from_texts_and_from_seconds() {
    let item = object(vec![
        ("updated", s("not a time")),
        ("modified", s("2012-12-12T12:12:12Z")),
        ("plain", s("2012-12-12 12:12:12")),
        ("offset", s("2012-12-12T14:12:12.5+02:00")),
        ("timestamp", n(1_431_648_000)),
        ("far", Json::Number(JsonNumber::NegInt(i64::MIN))),
        ("real", Json::Number(JsonNumber::Real(String::from("1.5")))),
    ]);
    let expected = Timestamp { secs: 1_355_314_332, nanos: 0 };
    assert_eq!(extract_timestamp(&item, &["updated", "modified"], now()), Some(expected));
    assert_eq!(extract_timestamp(&item, &["plain"], now()), Some(expected));
    assert_eq!(
        extract_timestamp(&item, &["offset"], now()),
        Some(Timestamp { secs: 1_355_314_332, nanos: 500_000_000 })
    );
    assert_eq!(
        extract_timestamp(&item, &["timestamp"], now()),
        Some(Timestamp { secs: 1_431_648_000, nanos: 0 })
    );
    assert_eq!(extract_timestamp(&item, &["far"], now()), Some(now()));
    assert_eq!(extract_timestamp(&item, &["updated"], now()), None);
    assert_eq!(extract_timestamp(&item, &["real", "missing"], now()), None);
    assert_eq!(extract_timestamp(&item, &["real", "timestamp"], now()), Some(Timestamp { secs: 1_431_648_000, nanos: 0 }));
}

#[test]
fn a_keyed_document_gives_one_item_per_key_with_the_key_written_in() {
    let doc = object(vec![
        ("OSD-1", object(vec![("title", s("one"))])),
        ("OSD-2", object(vec![("dataset_id", s("stale")), ("title", s("two"))])),
        ("OSD-3", s("not an object")),
    ]);
    let out = items(doc);
    assert_eq!(out.len(), 3);
    assert!(same(&out[0], &object(vec![("title", s("one")), ("dataset_id", s("OSD-1"))])));
    assert!(same(&out[1], &object(vec![("dataset_id", s("OSD-2")), ("title", s("two"))])));
    assert!(same(&out[2], &s("not an object")));
}

#[test]
fn an_array_gives_its_elements_and_anything_else_gives_itself() {
    let out = items(Json::Array(vec![n(1), s("two"), Json::Null]));
    assert_eq!(out.len(), 3);
    assert!(same(&out[1], &s("two")));
    assert!(items(Json::Array(vec![])).is_empty());
    assert!(items(object(vec![])).is_empty());
    let single = items(s("alone"));
    assert_eq!(single.len(), 1);
    assert!(same(&single[0], &s("alone")));
    assert_eq!(items(Json::Null).len(), 1);
}

#[test]
fn an_item_is_described_by_its_candidate_fields() {
    let item = object(vec![
        ("accession", s("GLDS-9")),
        ("label", s("Mice in space")),
        ("state", s("released")),
        ("lastUpdated", n(1_431_648_000)),
    ]);
    let fields = describe(&item, now());
    assert_eq!(fields.dataset_id.as_deref(), Some("GLDS-9"));
    assert_eq!(fields.title.as_deref(), Some("Mice in space"));
    assert_eq!(fields.status.as_deref(), Some("released"));
    assert_eq!(fields.updated_at, Some(Timestamp { secs: 1_431_648_000, nanos: 0 }));
    let bare = describe(&object(vec![]), now());
    assert!(bare.dataset_id.is_none() && bare.title.is_none() && bare.status.is_none());
    assert!(bare.updated_at.is_none());
}

#[test]
fn a_synchronisation_writes_every_item_once() {
    let mut service = OsdrService::new(
        OsdrRepo::new(),
        NasaClient::new(String::new()),
        String::from("https://example.org/datasets"),
    );
    let doc = object(vec![
        ("OSD-1", object(vec![("title", s("one"))])),
        ("OSD-2", object(vec![("title", s("two"))])),
    ]);
    let raw: Vec<RawItem> = items(doc)
        .into_iter()
        .enumerate()
        .map(|(i, value)| RawItem { value, text: format!("{{\"n\":{}}}", i) })
        .collect();
    assert_eq!(service.sync(&raw, now()).expect("a sync"), 2);
    assert_eq!(service.sync(&raw, now()).expect("a sync"), 2);
    assert_eq!(service.count(), 2);
    let page = service.list(10, 0);
    assert_eq!(page.total, 2);
    assert_eq!(page.items[0].dataset_id, "OSD-2");
    assert_eq!(page.items[0].title.as_deref(), Some("two"));
    assert_eq!(page.items[0].raw, "{\"n\":1}");
    assert_eq!(page.items[1].dataset_id, "OSD-1");

    let keyless = vec![
        RawItem { value: object(vec![("title", s("x"))]), text: String::from("{\"title\":\"x\"}") },
        RawItem { value: object(vec![("title", s("x"))]), text: String::from("{\"title\":\"x\"}") },
        RawItem { value: object(vec![("title", s("y"))]), text: String::from("{\"title\":\"y\"}") },
    ];
    assert_eq!(service.sync(&keyless, now()).expect("a sync"), 3);
    assert_eq!(service.count(), 4);
    assert_eq!(service.fetch().request().url, "https://example.org/datasets");
}
