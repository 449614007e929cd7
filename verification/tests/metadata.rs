use move_compiler_wasm::bcs_format::uleb128_bytes;
use move_compiler_wasm::metadata::{
    encode_module_metadata, encode_modules, encode_package_dep, encode_package_deps,
    encode_package_metadata, encode_upgrade_policy, ModuleMetadata, PackageDep, PackageMetadata,
    UpgradePolicy,
};

fn std_address() -> [u8; 32] {
    let mut a = [0u8; 32];
    a[31] = 1;
    a
}

fn std_dep_bytes() -> Vec<u8> {
    let mut v = std_address().to_vec();
    v.push(10);
    v.extend_from_slice(b"MoveStdlib");
    v
}

#[test]
fn upgrade_policies() {
    assert_eq!(UpgradePolicy::arbitrary().policy, 0);
    assert_eq!(UpgradePolicy::compat().policy, 1);
    assert_eq!(UpgradePolicy::immutable().policy, 2);
    assert_eq!(encode_upgrade_policy(&UpgradePolicy::immutable()), vec![2]);
}

#[test]
fn uleb128_lengths() {
    assert_eq!(uleb128_bytes(0), vec![0]);
    assert_eq!(uleb128_bytes(127), vec![0x7f]);
    assert_eq!(uleb128_bytes(128), vec![0x80, 0x01]);
    assert_eq!(uleb128_bytes(300), vec![0xac, 0x02]);
    assert_eq!(uleb128_bytes(0x7fff_ffff), vec![0xff, 0xff, 0xff, 0xff, 0x07]);
}

#[test]
fn module_metadata_encoding() {
    let m = ModuleMetadata {
        name: "coin".to_string(),
        source: vec![9, 8],
        source_map: vec![],
        extension: vec![7],
    };
    assert_eq!(
        encode_module_metadata(&m),
        Some(vec![4, b'c', b'o', b'i', b'n', 2, 9, 8, 0, 1, 7])
    );
}

#[test]
fn utf8_names_are_framed_by_byte_length() {
    let m = ModuleMetadata {
        name: "é".to_string(),
        source: vec![],
        source_map: vec![],
        extension: vec![],
    };
    assert_eq!(encode_module_metadata(&m), Some(vec![2, 0xc3, 0xa9, 0, 0, 0]));
}

#[test]
fn long_byte_sequences_take_longer_prefixes() {
    let m = ModuleMetadata {
        name: String::new(),
        source: vec![5; 200],
        source_map: vec![],
        extension: vec![],
    };
    let bytes = encode_module_metadata(&m).unwrap();
    assert_eq!(bytes.len(), 1 + 2 + 200 + 1 + 1);
    assert_eq!(&bytes[..3], &[0, 0xc8, 0x01]);
}

#[test]
fn dependency_encoding() {
    let d = PackageDep { account: std_address(), package_name: "MoveStdlib".to_string() };
    assert_eq!(encode_package_dep(&d), Some(std_dep_bytes()));
    let mut expected = vec![1];
    expected.extend(std_dep_bytes());
    assert_eq!(encode_package_deps(&vec![d]), Some(expected));
    assert_eq!(encode_package_deps(&vec![]), Some(vec![0]));
    assert_eq!(encode_modules(&vec![]), Some(vec![0]));
}

#[test]
fn package_metadata_encoding() {
    let m = PackageMetadata {
        name: "pkg".to_string(),
        upgrade_policy: UpgradePolicy::arbitrary(),
        upgrade_number: 0x0102,
        source_digest: "ab".to_string(),
        manifest: vec![3],
        modules: vec![ModuleMetadata {
            name: "m".to_string(),
            source: vec![],
            source_map: vec![],
            extension: vec![],
        }],
        deps: vec![],
        extension: vec![4, 5],
    };
    let expected = vec![
        3, b'p', b'k', b'g', 0, 0x02, 0x01, 0, 0, 0, 0, 0, 0, 2, b'a', b'b', 1, 3, 1, 1, b'm', 0,
        0, 0, 0, 2, 4, 5,
    ];
    assert_eq!(encode_package_metadata(&m), Some(expected));
}

fn as_tuple(
    m: &PackageMetadata,
) -> (
    String,
    u8,
    u64,
    String,
    Vec<u8>,
    Vec<(String, Vec<u8>, Vec<u8>, Vec<u8>)>,
    Vec<([u8; 32], String)>,
    Vec<u8>,
) {
    (
        m.name.clone(),
        m.upgrade_policy.policy,
        m.upgrade_number,
        m.source_digest.clone(),
        m.manifest.clone(),
        m.modules
            .iter()
            .map(|x| (x.name.clone(), x.source.clone(), x.source_map.clone(), x.extension.clone()))
            .collect(),
        m.deps.iter().map(|d| (d.account, d.package_name.clone())).collect(),
        m.extension.clone(),
    )
}

#[test]
fn encoding_agrees_with_bcs_on_a_tuple() {
    let mut other = [7u8; 32];
    other[0] = 0xab;
    let m = PackageMetadata {
        name: "pakete-ü".to_string(),
        upgrade_policy: UpgradePolicy::immutable(),
        upgrade_number: 0x0102_0304_0506_0708,
        source_digest: "digest".to_string(),
        manifest: vec![1; 300],
        modules: (0..130)
            .map(|i| ModuleMetadata {
                name: format!("m{}", i),
                source: vec![i as u8; i],
                source_map: vec![],
                extension: vec![9],
            })
            .collect(),
        deps: vec![
            PackageDep { account: std_address(), package_name: "MoveStdlib".to_string() },
            PackageDep { account: other, package_name: "Другой".to_string() },
        ],
        extension: vec![],
    };
    let expected = bcs::to_bytes(&as_tuple(&m)).unwrap();
    assert_eq!(encode_package_metadata(&m), Some(expected));
}
