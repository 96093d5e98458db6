use immichctl::curl::{CurlData, CurlMethod};
use immichctl::immichctl::ImmichCtl;

fn to_json(data: CurlData) -> serde_json::Value {
    match data {
        CurlData::Json(text) => serde_json::from_str(&text).unwrap(),
        CurlData::Object(pairs) => {
            let mut map = serde_json::Map::new();
            for (k, v) in pairs {
                map.insert(k, serde_json::Value::String(v));
            }
            serde_json::Value::Object(map)
        }
        CurlData::Text(text) => serde_json::Value::String(text),
    }
}

fn pairs(data: CurlData) -> Vec<(String, String)> {
    match data {
        CurlData::Object(pairs) => pairs,
        other => panic!("no pairs: {other:?}"),
    }
}

fn pair(k: &str, v: &str) -> (String, String) {
    (k.to_string(), v.to_string())
}

#[test]
fn parse_json_object() {
    let data = Some("{\"id\":\"abc\"}".to_string());
    let v = to_json(ImmichCtl::parse_data_to_json(&data).unwrap());
    assert_eq!(
        v.get("id").unwrap(),
        &serde_json::Value::String("abc".to_string())
    );
}

#[test]
fn parse_kv_pairs_to_object() {
    let data = Some("id=abc&x=1".to_string());
    let v = to_json(ImmichCtl::parse_data_to_json(&data).unwrap());
    assert_eq!(
        v.get("id").unwrap(),
        &serde_json::Value::String("abc".to_string())
    );
    assert_eq!(
        v.get("x").unwrap(),
        &serde_json::Value::String("1".to_string())
    );
}

#[test]
fn parse_fallback_string() {
    let data = Some("hello".to_string());
    let v = to_json(ImmichCtl::parse_data_to_json(&data).unwrap());
    assert_eq!(v, serde_json::Value::String("hello".to_string()));
}

#[test]
fn parse_none() {
    let data: Option<String> = None;
    assert!(ImmichCtl::parse_data_to_json(&data).is_none());
}

#[test]
fn parse_data_shapes() {
    assert!(matches!(
        ImmichCtl::parse_data_to_json(&Some("[1, 2]".to_string())),
        Some(CurlData::Json(t)) if t == "[1, 2]"
    ));
    assert!(matches!(
        ImmichCtl::parse_data_to_json(&Some("12".to_string())),
        Some(CurlData::Json(t)) if t == "12"
    ));
    assert!(matches!(
        ImmichCtl::parse_data_to_json(&Some("{\"a\"=1}".to_string())),
        Some(CurlData::Object(_))
    ));
    assert!(matches!(
        ImmichCtl::parse_data_to_json(&Some(String::new())),
        Some(CurlData::Text(t)) if t.is_empty()
    ));
    assert!(matches!(ImmichCtl::parse_data("a=b", true), CurlData::Json(t) if t == "a=b"));
}

#[test]
fn parse_data_pairs() {
    assert_eq!(
        pairs(ImmichCtl::parse_data("id=abc&x=1", false)),
        [pair("id", "abc"), pair("x", "1")]
    );
    assert_eq!(pairs(ImmichCtl::parse_data("a=b=c", false)), [pair("a", "b=c")]);
    assert_eq!(pairs(ImmichCtl::parse_data("=", false)), [pair("", "")]);
    assert_eq!(pairs(ImmichCtl::parse_data("k=", false)), [pair("k", "")]);
    assert_eq!(pairs(ImmichCtl::parse_data("=v", false)), [pair("", "v")]);
    assert_eq!(
        pairs(ImmichCtl::parse_data("skip&a=1&&also&b=2&", false)),
        [pair("a", "1"), pair("b", "2")]
    );
    assert_eq!(
        pairs(ImmichCtl::parse_data("a=1&a=2", false)),
        [pair("a", "1"), pair("a", "2")]
    );
    assert_eq!(
        pairs(ImmichCtl::parse_data("n\u{00e4}me=w\u{00e9}rt&\u{1F600}=x", false)),
        [pair("n\u{00e4}me", "w\u{00e9}rt"), pair("\u{1F600}", "x")]
    );
    assert!(matches!(ImmichCtl::parse_data("a&b&c", false), CurlData::Text(t) if t == "a&b&c"));
    assert!(matches!(ImmichCtl::parse_data("&&", false), CurlData::Text(t) if t == "&&"));
    // as std splits them
    for body in ["id=abc&x=1", "a=b=c", "skip&a=1&&also&b=2&", "a&b", ""] {
        let mut expected = Vec::new();
        for part in body.split('&') {
            if let Some((k, v)) = part.split_once('=') {
                expected.push(pair(k, v));
            }
        }
        match ImmichCtl::parse_data(body, false) {
            CurlData::Object(found) => assert_eq!(found, expected),
            CurlData::Text(text) => {
                assert!(expected.is_empty());
                assert_eq!(text, body);
            }
            CurlData::Json(_) => panic!("not asked for"),
        }
    }
}

#[test]
fn curl_builds_the_request() {
    let mut ctl = ImmichCtl::with_config_dir("/tmp/immichctl_test_curl", None);
    let refused = ctl.curl("server/version", CurlMethod::Get, &None);
    assert_eq!(
        refused.err().unwrap().to_string(),
        "Not logged in. Use 'immichctl login <URL> --apikey <KEY>' to login."
    );

    ctl.login("http://localhost:2283", "key").unwrap();
    let request = ctl.curl(
        "server/version",
        CurlMethod::Get,
        &Some("ignored=1".to_string()),
    )
    .unwrap();
    assert_eq!(request.method, CurlMethod::Get);
    assert_eq!(request.url, "http://localhost:2283/api/server/version");
    assert!(request.body.is_none());

    for method in [CurlMethod::Post, CurlMethod::Put, CurlMethod::Delete] {
        let request = ctl.curl("tags", method, &Some("name=x".to_string())).unwrap();
        assert_eq!(request.method, method);
        assert_eq!(request.url, "http://localhost:2283/api/tags");
        assert_eq!(pairs(request.body.unwrap()), [pair("name", "x")]);
        let request = ctl.curl("tags", method, &None).unwrap();
        assert!(request.body.is_none());
    }

    ctl.logout();
    assert!(ctl.curl("tags", CurlMethod::Get, &None).is_err());
}
