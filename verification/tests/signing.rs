use sfo_http::hash_sign::{create_signature, signing_text, SignedData};

struct TestData {
    name: String,
    age: u32,
}

fn pair(name: &str, value: &str) -> (String, String) {
    (name.to_string(), value.to_string())
}

fn entries(signed: &SignedData<TestData>) -> Vec<(String, String)> {
    vec![
        pair("__signature___", &signed.signature),
        pair("__timestamp___", &signed.timestamp.to_string()),
        pair("age", &signed.data.age.to_string()),
        pair("name", &signed.data.name),
    ]
}

#[test]
fn test_signed_data() {
    let made = 1_700_000_000u64;
    let mut data = SignedData::new(TestData { name: "test".to_string(), age: 18 }, made);
    let fields = entries(&data);
    data.sign("test_key", &fields);
    let fields = entries(&data);
    assert_eq!(data.verify_signature("test_key", &fields), true);
    let later = made + 4;
    assert_eq!(data.verify("test_key", &fields, 10, later), true);
    assert_eq!(data.verify("test_key", &fields, 1, later), false);
    assert_eq!(data.to_data().name, "test");
}

#[test]
fn signature_has_its_known_value() {
    let mut data = SignedData::new(TestData { name: "test".to_string(), age: 18 }, 1_700_000_000);
    assert_eq!(data.signature, "");
    assert_eq!(data.timestamp, 1_700_000_000);
    let fields = entries(&data);
    data.sign("test_key", &fields);
    assert_eq!(data.signature, "F6Pt3ibX7E5d8oWjrPGtFhzS2f3s36kSaUNYBvnegSKa");
    assert_eq!(create_signature(&vec![], "k"), "3HYA7kXRzZRGTWvAAHcdNts742F3NujKT5ydWRkcSiZU");
    assert_eq!(
        create_signature(&vec![pair("a", "1")], ""),
        "AWfRVcVs3ot48VB4659HbooFTjomxn4CNbLDYxww8Ch7"
    );
}

#[test]
fn signed_text_leaves_the_signature_out() {
    let fields = vec![
        pair("__signature___", "old"),
        pair("__timestamp___", "1700000000"),
        pair("age", "18"),
        pair("name", "test"),
    ];
    assert_eq!(
        signing_text(&fields, "test_key"),
        "__timestamp___=1700000000&age=18&name=test&__key___=test_key"
    );
    assert_eq!(signing_text(&vec![], "k"), "&__key___=k");
    assert_eq!(signing_text(&vec![pair("__signature___", "x")], "k"), "&__key___=k");
    assert_eq!(
        signing_text(&vec![pair("a", "1"), pair("__signature___", "x"), pair("b", "")], "k"),
        "a=1&b=&__key___=k"
    );
}

#[test]
fn wrong_key_or_changed_field_fails() {
    let mut data = SignedData::new(TestData { name: "test".to_string(), age: 18 }, 100);
    let fields = entries(&data);
    data.sign("test_key", &fields);
    assert!(!data.verify_signature("other_key", &entries(&data)));
    data.data.age = 19;
    assert!(!data.verify_signature("test_key", &entries(&data)));
    data.data.age = 18;
    assert!(data.verify_signature("test_key", &entries(&data)));
    assert!(data.verify("test_key", &entries(&data), 0, 100));
    assert!(!data.verify("test_key", &entries(&data), 0, 101));
    assert!(!data.verify("other_key", &entries(&data), 50, 101));
}
