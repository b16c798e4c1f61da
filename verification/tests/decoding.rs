use bootspec::error::DecodeError;
use bootspec::extension::{find_extension, retype_string_field};
use bootspec::generation::{decode, Generation};
use bootspec::json::Json;
use bootspec::v1::GenerationV1;
use bootspec::{SystemConfigurationRoot, SCHEMA_VERSION};

fn value_to_json(v: &serde_json::Value) -> Json {
    match v {
        serde_json::Value::Null => Json::Null,
        serde_json::Value::Bool(b) => Json::Bool(*b),
        serde_json::Value::Number(n) => Json::Int(n.as_i64().expect("integer number")),
        serde_json::Value::String(s) => Json::Str(s.clone()),
        serde_json::Value::Array(items) => Json::Arr(items.iter().map(value_to_json).collect()),
        serde_json::Value::Object(fields) => Json::Obj(
            fields
                .iter()
                .map(|(k, v)| (k.clone(), value_to_json(v)))
                .collect(),
        ),
    }
}

fn parse(text: &str) -> Json {
    let v: serde_json::Value = serde_json::from_str(text).expect("well-formed JSON");
    value_to_json(&v)
}

fn unwrap_v1(g: Generation) -> GenerationV1 {
    match g {
        Generation::V1(r) => r,
        _ => panic!("unsupported document version"),
    }
}

fn base_params() -> Vec<String> {
    vec![
        "amd_iommu=on",
        "amd_iommu=pt",
        "iommu=pt",
        "kvm.ignore_msrs=1",
        "kvm.report_ignored_msrs=0",
        "udev.log_priority=3",
        "systemd.unified_cgroup_hierarchy=1",
        "loglevel=4",
    ]
    .iter()
    .map(ToString::to_string)
    .collect()
}

#[test]
fn valid_v1_json() {
    let json = r#"{
    "v1": {
        "system": "x86_64-linux",
        "init": "/nix/store/xxx-nixos-system-xxx/init",
        "initrd": "/nix/store/xxx-initrd-linux/initrd",
        "initrdSecrets": "/nix/store/xxx-append-secrets/bin/append-initrd-secrets",
        "kernel": "/nix/store/xxx-linux/bzImage",
        "kernelParams": [
            "amd_iommu=on",
            "amd_iommu=pt",
            "iommu=pt",
            "kvm.ignore_msrs=1",
            "kvm.report_ignored_msrs=0",
            "udev.log_priority=3",
            "systemd.unified_cgroup_hierarchy=1",
            "loglevel=4"
        ],
        "label": "NixOS 21.11.20210810.dirty (Linux 5.15.30)",
        "toplevel": "/nix/store/xxx-nixos-system-xxx",
        "specialisation": {},
        "extensions": {}
    }
}"#;

    let from_json = unwrap_v1(decode(&parse(json)).unwrap());

    let expected = GenerationV1 {
        system: String::from("x86_64-linux"),
        label: String::from("NixOS 21.11.20210810.dirty (Linux 5.15.30)"),
        kernel: String::from("/nix/store/xxx-linux/bzImage"),
        kernel_params: base_params(),
        init: String::from("/nix/store/xxx-nixos-system-xxx/init"),
        initrd: Some(String::from("/nix/store/xxx-initrd-linux/initrd")),
        initrd_secrets: Some(String::from(
            "/nix/store/xxx-append-secrets/bin/append-initrd-secrets",
        )),
        specialisation: Vec::new(),
        extensions: Vec::new(),
        toplevel: SystemConfigurationRoot(String::from("/nix/store/xxx-nixos-system-xxx")),
    };

    assert_eq!(from_json, expected);
}

#[test]
fn valid_v1_json_with_typed_extension() {
    let json = r#"{
    "v1": {
        "system": "x86_64-linux",
        "init": "/nix/store/xxx-nixos-system-xxx/init",
        "initrd": "/nix/store/xxx-initrd-linux/initrd",
        "initrdSecrets": "/nix/store/xxx-append-secrets/bin/append-initrd-secrets",
        "kernel": "/nix/store/xxx-linux/bzImage",
        "kernelParams": [
            "amd_iommu=on",
            "amd_iommu=pt",
            "iommu=pt",
            "kvm.ignore_msrs=1",
            "kvm.report_ignored_msrs=0",
            "udev.log_priority=3",
            "systemd.unified_cgroup_hierarchy=1",
            "loglevel=4"
        ],
        "label": "NixOS 21.11.20210810.dirty (Linux 5.15.30)",
        "toplevel": "/nix/store/xxx-nixos-system-xxx",
        "specialisation": {},
        "extensions": { "org.test": { "key": "hello" } }
    }
}"#;

    let from_json = unwrap_v1(decode(&parse(json)).unwrap());

    let expected = GenerationV1 {
        system: String::from("x86_64-linux"),
        label: String::from("NixOS 21.11.20210810.dirty (Linux 5.15.30)"),
        kernel: String::from("/nix/store/xxx-linux/bzImage"),
        kernel_params: base_params(),
        init: String::from("/nix/store/xxx-nixos-system-xxx/init"),
        initrd: Some(String::from("/nix/store/xxx-initrd-linux/initrd")),
        initrd_secrets: Some(String::from(
            "/nix/store/xxx-append-secrets/bin/append-initrd-secrets",
        )),
        specialisation: Vec::new(),
        extensions: vec![(
            String::from("org.test"),
            vec![(String::from("key"), Json::Str(String::from("hello")))],
        )],
        toplevel: SystemConfigurationRoot(String::from("/nix/store/xxx-nixos-system-xxx")),
    };

    let payload = find_extension(&from_json.extensions, "org.test").expect("extension present");
    let from_extension = retype_string_field(payload, "key").unwrap();
    let expected_extension = String::from("hello");

    assert_eq!(from_json, expected);
    assert_eq!(from_extension, expected_extension);
}

#[test]
fn valid_v1_json_with_typed_optional_extension_fields_and_empty_object() {
    let json = r#"{
    "v1": {
        "system": "x86_64-linux",
        "init": "/nix/store/xxx-nixos-system-xxx/init",
        "initrd": "/nix/store/xxx-initrd-linux/initrd",
        "initrdSecrets": "/nix/store/xxx-append-secrets/bin/append-initrd-secrets",
        "kernel": "/nix/store/xxx-linux/bzImage",
        "kernelParams": [
            "amd_iommu=on",
            "amd_iommu=pt",
            "iommu=pt",
            "kvm.ignore_msrs=1",
            "kvm.report_ignored_msrs=0",
            "udev.log_priority=3",
            "systemd.unified_cgroup_hierarchy=1",
            "loglevel=4"
        ],
        "label": "NixOS 21.11.20210810.dirty (Linux 5.15.30)",
        "toplevel": "/nix/store/xxx-nixos-system-xxx",
        "specialisation": {},
        "extensions": {}
    }
}"#;

    let from_json = unwrap_v1(decode(&parse(json)).unwrap());

    let expected = GenerationV1 {
        system: String::from("x86_64-linux"),
        label: String::from("NixOS 21.11.20210810.dirty (Linux 5.15.30)"),
        kernel: String::from("/nix/store/xxx-linux/bzImage"),
        kernel_params: base_params(),
        init: String::from("/nix/store/xxx-nixos-system-xxx/init"),
        initrd: Some(String::from("/nix/store/xxx-initrd-linux/initrd")),
        initrd_secrets: Some(String::from(
            "/nix/store/xxx-append-secrets/bin/append-initrd-secrets",
        )),
        specialisation: Vec::new(),
        extensions: Vec::new(),
        toplevel: SystemConfigurationRoot(String::from("/nix/store/xxx-nixos-system-xxx")),
    };

    assert_eq!(from_json, expected);
}

#[test]
fn invalid_v1_json_with_null_extension() {
    let json = r#"{
    "v1": {
        "init": "/nix/store/xxx-nixos-system-xxx/init",
        "initrd": "/nix/store/xxx-initrd-linux/initrd",
        "initrdSecrets": "/nix/store/xxx-append-secrets/bin/append-initrd-secrets",
        "kernel": "/nix/store/xxx-linux/bzImage",
        "kernelParams": [
            "amd_iommu=on",
            "amd_iommu=pt",
            "iommu=pt",
            "kvm.ignore_msrs=1",
            "kvm.report_ignored_msrs=0",
            "udev.log_priority=3",
            "systemd.unified_cgroup_hierarchy=1",
            "loglevel=4"
        ],
        "label": "NixOS 21.11.20210810.dirty (Linux 5.15.30)",
        "toplevel": "/nix/store/xxx-nixos-system-xxx",
        "specialisation": {},
        "extensions": null
    }
}"#;
    let json_err = decode(&parse(json)).unwrap_err();
    assert!(json_err.message().contains("expected a map"));
}

#[test]
fn valid_v1_json_without_extension() {
    let json = r#"{
    "v1": {
        "system": "x86_64-linux",
        "init": "/nix/store/xxx-nixos-system-xxx/init",
        "initrd": "/nix/store/xxx-initrd-linux/initrd",
        "initrdSecrets": "/nix/store/xxx-append-secrets/bin/append-initrd-secrets",
        "kernel": "/nix/store/xxx-linux/bzImage",
        "kernelParams": [
            "amd_iommu=on",
            "amd_iommu=pt",
            "iommu=pt",
            "kvm.ignore_msrs=1",
            "kvm.report_ignored_msrs=0",
            "udev.log_priority=3",
            "systemd.unified_cgroup_hierarchy=1",
            "loglevel=4"
        ],
        "label": "NixOS 21.11.20210810.dirty (Linux 5.15.30)",
        "toplevel": "/nix/store/xxx-nixos-system-xxx",
        "specialisation": {}
    }
}"#;

    let from_json = unwrap_v1(decode(&parse(json)).unwrap());

    let expected = GenerationV1 {
        system: String::from("x86_64-linux"),
        label: String::from("NixOS 21.11.20210810.dirty (Linux 5.15.30)"),
        kernel: String::from("/nix/store/xxx-linux/bzImage"),
        kernel_params: base_params(),
        init: String::from("/nix/store/xxx-nixos-system-xxx/init"),
        initrd: Some(String::from("/nix/store/xxx-initrd-linux/initrd")),
        initrd_secrets: Some(String::from(
            "/nix/store/xxx-append-secrets/bin/append-initrd-secrets",
        )),
        specialisation: Vec::new(),
        extensions: Vec::new(),
        toplevel: SystemConfigurationRoot(String::from("/nix/store/xxx-nixos-system-xxx")),
    };

    assert_eq!(from_json, expected);
}

#[test]
fn valid_v1_json_without_initrd_and_specialisation() {
    let json = r#"{
    "v1": {
        "system": "x86_64-linux",
        "init": "/nix/store/xxx-nixos-system-xxx/init",
        "kernel": "/nix/store/xxx-linux/bzImage",
        "kernelParams": [
            "amd_iommu=on",
            "amd_iommu=pt",
            "iommu=pt",
            "kvm.ignore_msrs=1",
            "kvm.report_ignored_msrs=0",
            "udev.log_priority=3",
            "systemd.unified_cgroup_hierarchy=1",
            "loglevel=4"
        ],
        "label": "NixOS 21.11.20210810.dirty (Linux 5.15.30)",
        "toplevel": "/nix/store/xxx-nixos-system-xxx",
        "extensions": {}
    }
}"#;

    let from_json = unwrap_v1(decode(&parse(json)).unwrap());

    let expected = GenerationV1 {
        system: String::from("x86_64-linux"),
        label: String::from("NixOS 21.11.20210810.dirty (Linux 5.15.30)"),
        kernel: String::from("/nix/store/xxx-linux/bzImage"),
        kernel_params: base_params(),
        init: String::from("/nix/store/xxx-nixos-system-xxx/init"),
        initrd: None,
        initrd_secrets: None,
        specialisation: Vec::new(),
        extensions: Vec::new(),
        toplevel: SystemConfigurationRoot(String::from("/nix/store/xxx-nixos-system-xxx")),
    };

    assert_eq!(from_json, expected);
}

#[test]
fn invalid_v1_json_with_null_specialisation() {
    let json = r#"{
    "v1": {
        "init": "/nix/store/xxx-nixos-system-xxx/init",
        "initrd": "/nix/store/xxx-initrd-linux/initrd",
        "initrdSecrets": "/nix/store/xxx-append-secrets/bin/append-initrd-secrets",
        "kernel": "/nix/store/xxx-linux/bzImage",
        "kernelParams": [
            "amd_iommu=on",
            "amd_iommu=pt",
            "iommu=pt",
            "kvm.ignore_msrs=1",
            "kvm.report_ignored_msrs=0",
            "udev.log_priority=3",
            "systemd.unified_cgroup_hierarchy=1",
            "loglevel=4"
        ],
        "label": "NixOS 21.11.20210810.dirty (Linux 5.15.30)",
        "toplevel": "/nix/store/xxx-nixos-system-xxx",
        "specialisation": null
    }
}"#;

    let json_err = decode(&parse(json)).unwrap_err();
    assert!(json_err.message().contains("expected a map"));
}

#[test]
fn invalid_json_invalid_version() {
    let json = format!(
        r#"{{
    "v{}": {{
        "init": "/nix/store/xxx-nixos-system-xxx/init",
        "initrd": "/nix/store/xxx-initrd-linux/initrd",
        "initrdSecrets": "/nix/store/xxx-append-secrets/bin/append-initrd-secrets",
        "kernel": "/nix/store/xxx-linux/bzImage",
        "kernelParams": [
            "amd_iommu=on",
            "amd_iommu=pt",
            "iommu=pt",
            "kvm.ignore_msrs=1",
            "kvm.report_ignored_msrs=0",
            "udev.log_priority=3",
            "systemd.unified_cgroup_hierarchy=1",
            "loglevel=4"
        ],
        "label": "NixOS 21.11.20210810.dirty (Linux 5.15.30)",
        "toplevel": "/nix/store/xxx-nixos-system-xxx",
        "specialisation": {{}}
    }}
}}"#,
        SCHEMA_VERSION + 1
    );

    let json_err = decode(&parse(&json)).unwrap_err();
    assert!(json_err.message().contains("unknown variant"));
}

#[test]
fn missing_required_field_is_named() {
    let json = r#"{"v1": {"init": "/a/init"}}"#;
    let err = decode(&parse(json)).unwrap_err();
    assert!(matches!(err, DecodeError::MissingRequiredField(_)));
    assert_eq!(err.message(), "missing field `system`");
}

#[test]
fn wrong_field_shape_is_a_type_mismatch() {
    let json = r#"{
    "v1": {
        "system": 5,
        "init": "/a/init",
        "kernel": "/a/bzImage",
        "kernelParams": ["loglevel=4"],
        "label": "L",
        "toplevel": "/a"
    }
}"#;
    let err = decode(&parse(json)).unwrap_err();
    assert!(matches!(err, DecodeError::TypeMismatch(_)));
    assert_eq!(err.message(), "invalid type for `system`");
}

#[test]
fn non_mapping_document_is_rejected() {
    let err = decode(&Json::Str(String::from("v1"))).unwrap_err();
    assert!(matches!(err, DecodeError::TypeMismatch(_)));
}

#[test]
fn multi_key_document_is_rejected() {
    let json = r#"{"v1": {}, "v2": {}}"#;
    let err = decode(&parse(json)).unwrap_err();
    assert!(matches!(err, DecodeError::UnrecognizedVersion(_)));
}

#[test]
fn null_extension_error_names_the_variant() {
    let json = r#"{"v1": {
        "system": "x86_64-linux",
        "init": "/a/init",
        "kernel": "/a/bzImage",
        "kernelParams": [],
        "label": "L",
        "toplevel": "/a",
        "extensions": null
    }}"#;
    let err = decode(&parse(json)).unwrap_err();
    assert!(matches!(err, DecodeError::NullWhereMapExpected(_)));
    assert_eq!(
        err.message(),
        "invalid type: null, expected a map for `extensions`"
    );
}

#[test]
fn unknown_version_error_names_the_tag() {
    let json = r#"{"v7": {}}"#;
    let err = decode(&parse(json)).unwrap_err();
    assert_eq!(err.message(), "unknown variant `v7`, expected `v1`");
}
