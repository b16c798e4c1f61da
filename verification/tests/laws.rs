use bootspec::extension::{find_extension, retype_optional_string_field, retype_string_field};
use bootspec::generation::{decode, encode, Generation};
use bootspec::json::Json;
use bootspec::v1::{gen_clone, GenerationV1, JSON_FILENAME};
use bootspec::{SpecialisationName, SystemConfigurationRoot, SCHEMA_VERSION};

fn value_to_json(v: &serde_json::Value) -> Json {
    match v {
        serde_json::Value::Null => Json::Null,
        serde_json::Value::Bool(b) => Json::Bool(*b),
        serde_json::Value::Number(n) => Json::Int(n.as_i64().expect("integer number")),
        serde_json::Value::String(s) => Json::Str(s.clone()),
        serde_json::Value::Array(items) => Json::Arr(items.iter().map(value_to_json).collect()),
        serde_json::Value::Object(fields) => Json::Obj(
            fields
                .iter()
                .map(|(k, v)| (k.clone(), value_to_json(v)))
                .collect(),
        ),
    }
}

fn parse(text: &str) -> Json {
    let v: serde_json::Value = serde_json::from_str(text).expect("well-formed JSON");
    value_to_json(&v)
}

fn unwrap_v1(g: Generation) -> GenerationV1 {
    match g {
        Generation::V1(r) => r,
        _ => panic!("unsupported document version"),
    }
}

fn sample_record() -> GenerationV1 {
    GenerationV1 {
        system: String::from("x86_64-linux"),
        init: String::from("/a/init"),
        initrd: Some(String::from("/a/initrd")),
        initrd_secrets: None,
        kernel: String::from("/a/bzImage"),
        kernel_params: vec![String::from("loglevel=4"), String::from("iommu=pt")],
        label: String::from("Generation 7"),
        toplevel: SystemConfigurationRoot(String::from("/a")),
        specialisation: vec![(
            SpecialisationName(String::from("with-debug")),
            GenerationV1 {
                system: String::from("x86_64-linux"),
                init: String::from("/b/init"),
                initrd: None,
                initrd_secrets: None,
                kernel: String::from("/b/bzImage"),
                kernel_params: vec![String::from("debug")],
                label: String::from("Generation 7 (debug)"),
                toplevel: SystemConfigurationRoot(String::from("/b")),
                specialisation: Vec::new(),
                extensions: Vec::new(),
            },
        )],
        extensions: vec![(
            String::from("org.test"),
            vec![
                (String::from("key"), Json::Str(String::from("hello"))),
                (String::from("count"), Json::Int(3)),
                (String::from("flag"), Json::Bool(true)),
                (
                    String::from("mixed"),
                    Json::Arr(vec![Json::Null, Json::Int(-1)]),
                ),
            ],
        )],
    }
}

#[test]
fn round_trip_preserves_the_record() {
    let record = Generation::V1(sample_record());
    let encoded = encode(&record);
    let decoded = decode(&encoded).expect("an encoded record decodes");
    assert_eq!(decoded, record);
}

#[test]
fn round_trip_preserves_a_minimal_record() {
    let record = Generation::V1(GenerationV1 {
        system: String::from("aarch64-linux"),
        init: String::from("/i"),
        initrd: None,
        initrd_secrets: None,
        kernel: String::from("/k"),
        kernel_params: Vec::new(),
        label: String::new(),
        toplevel: SystemConfigurationRoot(String::from("/t")),
        specialisation: Vec::new(),
        extensions: Vec::new(),
    });
    let decoded = decode(&encode(&record)).expect("an encoded record decodes");
    assert_eq!(decoded, record);
}

#[test]
fn version_is_fixed_per_variant() {
    let record = Generation::V1(sample_record());
    assert_eq!(record.version(), 1);
    assert_eq!(record.version(), SCHEMA_VERSION);
    let decoded = decode(&encode(&record)).unwrap();
    assert_eq!(decoded.version(), 1);
}

#[test]
fn kernel_param_order_is_preserved() {
    let record = Generation::V1(sample_record());
    let decoded = unwrap_v1(decode(&encode(&record)).unwrap());
    assert_eq!(
        decoded.kernel_params,
        vec![String::from("loglevel=4"), String::from("iommu=pt")]
    );
}

#[test]
fn extra_top_level_field_is_tolerated() {
    let json = r#"{
    "v1": {
        "system": "x86_64-linux",
        "init": "/a/init",
        "kernel": "/a/bzImage",
        "kernelParams": ["loglevel=4"],
        "label": "L",
        "toplevel": "/a",
        "futureField": {"anything": [1, 2, 3]}
    }
}"#;
    let rec = unwrap_v1(decode(&parse(json)).expect("unknown fields are ignored"));
    assert_eq!(rec.system, "x86_64-linux");
    assert!(rec.extensions.is_empty());
}

#[test]
fn retyping_an_extension_payload() {
    let json = r#"{
    "v1": {
        "system": "x86_64-linux",
        "init": "/a/init",
        "kernel": "/a/bzImage",
        "kernelParams": ["loglevel=4"],
        "label": "L",
        "toplevel": "/a",
        "extensions": {"org.test": {"key": "hello"}}
    }
}"#;
    let rec = unwrap_v1(decode(&parse(json)).unwrap());
    let payload = find_extension(&rec.extensions, "org.test").expect("extension present");
    assert_eq!(retype_string_field(payload, "key").unwrap(), "hello");
    assert_eq!(
        retype_optional_string_field(payload, "key").unwrap(),
        Some(String::from("hello"))
    );
    assert_eq!(retype_optional_string_field(payload, "absent").unwrap(), None);
    assert!(retype_string_field(payload, "absent").is_err());
    assert!(find_extension(&rec.extensions, "org.other").is_none());
}

#[test]
fn decoding_the_reference_document() {
    let json = r#"{"v1": {"system": "x86_64-linux", "init": "/a/init", "kernel": "/a/bzImage", "kernelParams": ["loglevel=4"], "label": "L", "toplevel": "/a", "specialisation": {}, "extensions": {}}}"#;
    let doc = parse(json);
    let rec = unwrap_v1(decode(&doc).unwrap());
    assert_eq!(rec.system, "x86_64-linux");
    assert_eq!(rec.initrd, None);
    assert!(rec.specialisation.is_empty());
    let reencoded = encode(&Generation::V1(rec));
    let rec_again = unwrap_v1(decode(&reencoded).unwrap());
    let rec_expected = unwrap_v1(decode(&doc).unwrap());
    assert_eq!(rec_again, rec_expected);
}

#[test]
fn nested_specialisations_round_trip() {
    let json = r#"{
    "v1": {
        "system": "x86_64-linux",
        "init": "/a/init",
        "kernel": "/a/bzImage",
        "kernelParams": [],
        "label": "outer",
        "toplevel": "/a",
        "specialisation": {
            "inner": {
                "system": "x86_64-linux",
                "init": "/b/init",
                "kernel": "/b/bzImage",
                "kernelParams": ["quiet"],
                "label": "inner",
                "toplevel": "/b"
            }
        }
    }
}"#;
    let rec = unwrap_v1(decode(&parse(json)).unwrap());
    assert_eq!(rec.specialisation.len(), 1);
    assert_eq!(
        rec.specialisation[0].0,
        SpecialisationName(String::from("inner"))
    );
    assert_eq!(rec.specialisation[0].1.label, "inner");
    let again = unwrap_v1(decode(&encode(&Generation::V1(gen_clone(&rec)))).unwrap());
    assert_eq!(again, rec);
}

#[test]
fn schema_constants_describe_the_same_generation() {
    assert_eq!(SCHEMA_VERSION, 1);
    assert_eq!(bootspec::v1::SCHEMA_VERSION, SCHEMA_VERSION);
    assert_eq!(JSON_FILENAME, "boot.v1.json");
}

#[test]
fn wrapper_types_have_equality_and_defaults() {
    assert_eq!(
        SpecialisationName::default(),
        SpecialisationName(String::new())
    );
    assert_eq!(
        SystemConfigurationRoot::default(),
        SystemConfigurationRoot(String::new())
    );
    assert_ne!(
        SpecialisationName(String::from("a")),
        SpecialisationName(String::from("b"))
    );
}

#[test]
fn null_initrd_decodes_to_no_value() {
    let json = r#"{
    "v1": {
        "system": "x86_64-linux",
        "init": "/a/init",
        "initrd": null,
        "kernel": "/a/bzImage",
        "kernelParams": [],
        "label": "L",
        "toplevel": "/a"
    }
}"#;
    let rec = unwrap_v1(decode(&parse(json)).unwrap());
    assert_eq!(rec.initrd, None);
    assert_eq!(rec.initrd_secrets, None);
}
