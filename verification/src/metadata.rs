//! The package metadata that a build emits, and its BCS encoding.
use vstd::prelude::*;
use crate::bcs_format::{
    MAX_SEQUENCE_LENGTH, fits_sequence, fits_str, framed, framed_str, le_u64, uleb128, uleb128_bytes,
};
use crate::bcs_decode::{
    law_module_metadata_decodes, law_package_metadata_decodes, module_fields, package_fields,
    read_module, read_package,
};
use crate::bcs_leaf::{bcs_account_address, bcs_byte_seq, bcs_str, bcs_u64, bcs_u8};

verus! {

/// A Move `Option`: empty, or a single value.
#[derive(Clone, Debug, PartialEq, Eq)]
pub struct MoveOption<T> {
    pub value: Vec<T>,
}

/// How a published package may be upgraded.
#[derive(Clone, Copy, Debug, PartialEq, Eq)]
pub struct UpgradePolicy {
    pub policy: u8,
}

impl UpgradePolicy {
    /// Any upgrade is allowed.
    pub fn arbitrary() -> (r: Self)
        ensures
            r.policy == 0,
    {
        UpgradePolicy { policy: 0 }
    }

    /// Only compatible upgrades are allowed.
    pub fn compat() -> (r: Self)
        ensures
            r.policy == 1,
    {
        UpgradePolicy { policy: 1 }
    }

    /// No upgrade is allowed.
    pub fn immutable() -> (r: Self)
        ensures
            r.policy == 2,
    {
        UpgradePolicy { policy: 2 }
    }
}

/// Metadata of one compiled module.
#[derive(Clone, Debug, PartialEq, Eq)]
pub struct ModuleMetadata {
    pub name: String,
    pub source: Vec<u8>,
    pub source_map: Vec<u8>,
    pub extension: Vec<u8>,
}

/// The bytes of address `0x1`, the standard library's publisher, as a
/// 32-byte account address: every byte is zero but the last, which is one.
pub open spec fn standard_address_bytes() -> Seq<u8> {
    Seq::new(32, |i: int| if i == 31 { 1u8 } else { 0u8 })
}

/// The 32-byte account address `0x1` of the standard library's publisher.
pub fn standard_account_address() -> (r: [u8; 32])
    ensures
        r@ == standard_address_bytes(),
{
    let r: [u8; 32] = [0, 0, 0, 0, 0, 0, 0, 0, 0, 0, 0, 0, 0, 0, 0, 0, 0, 0, 0, 0, 0, 0, 0, 0, 0, 0, 0, 0, 0, 0, 0, 1];
    assert(r@ =~= standard_address_bytes());
    r
}

/// A dependency of a package: the 32-byte address of the account that
/// published it, and its name.
#[derive(Clone, Debug, PartialEq, Eq)]
pub struct PackageDep {
    pub account: [u8; 32],
    pub package_name: String,
}

/// Metadata of a package.
#[derive(Clone, Debug, PartialEq, Eq)]
pub struct PackageMetadata {
    pub name: String,
    pub upgrade_policy: UpgradePolicy,
    pub upgrade_number: u64,
    pub source_digest: String,
    pub manifest: Vec<u8>,
    pub modules: Vec<ModuleMetadata>,
    pub deps: Vec<PackageDep>,
    pub extension: Vec<u8>,
}

impl ModuleMetadata {
    /// BCS encoding: the fields in declaration order.
    pub open spec fn bcs(self) -> Seq<u8> {
        framed_str(self.name@) + framed(self.source@) + framed(self.source_map@) + framed(
            self.extension@,
        )
    }

    /// Whether every sequence in the module metadata is within the BCS limit.
    pub open spec fn fits(self) -> bool {
        &&& fits_str(self.name@)
        &&& fits_sequence(self.source@.len())
        &&& fits_sequence(self.source_map@.len())
        &&& fits_sequence(self.extension@.len())
    }
}

impl PackageDep {
    /// BCS encoding: the raw address bytes, then the package name.
    pub open spec fn bcs(self) -> Seq<u8> {
        self.account@ + framed_str(self.package_name@)
    }

    /// Whether the package name is within the BCS limit.
    pub open spec fn fits(self) -> bool {
        fits_str(self.package_name@)
    }
}

/// Concatenated encodings of a sequence of module metadata.
pub open spec fn modules_body(ms: Seq<ModuleMetadata>) -> Seq<u8>
    decreases ms.len(),
{
    if ms.len() == 0 {
        Seq::empty()
    } else {
        modules_body(ms.drop_last()) + ms.last().bcs()
    }
}

/// Concatenated encodings of a sequence of dependencies.
pub open spec fn deps_body(ds: Seq<PackageDep>) -> Seq<u8>
    decreases ds.len(),
{
    if ds.len() == 0 {
        Seq::empty()
    } else {
        deps_body(ds.drop_last()) + ds.last().bcs()
    }
}

impl PackageMetadata {
    /// BCS encoding: the fields in declaration order, each vector of structs
    /// prefixed with its length.
    pub open spec fn bcs(self) -> Seq<u8> {
        framed_str(self.name@) + seq![self.upgrade_policy.policy] + le_u64(self.upgrade_number)
            + framed_str(self.source_digest@) + framed(self.manifest@) + uleb128(
            self.modules@.len(),
        ) + modules_body(self.modules@) + uleb128(self.deps@.len()) + deps_body(self.deps@)
            + framed(self.extension@)
    }

    /// Whether every sequence in the metadata is within the BCS limit.
    pub open spec fn fits(self) -> bool {
        &&& fits_str(self.name@)
        &&& fits_str(self.source_digest@)
        &&& fits_sequence(self.manifest@.len())
        &&& fits_sequence(self.modules@.len())
        &&& forall|i: int| 0 <= i < self.modules@.len() ==> (#[trigger] self.modules@[i]).fits()
        &&& fits_sequence(self.deps@.len())
        &&& forall|i: int| 0 <= i < self.deps@.len() ==> (#[trigger] self.deps@[i]).fits()
        &&& fits_sequence(self.extension@.len())
    }
}

/// BCS encoding of an upgrade policy: the policy byte.
pub fn encode_upgrade_policy(p: &UpgradePolicy) -> (r: Vec<u8>)
    ensures
        r@ == seq![p.policy],
{
    bcs_u8(p.policy)
}

/// BCS encoding of one module's metadata; `None` when a sequence in it is
/// over the BCS limit.
pub fn encode_module_metadata(m: &ModuleMetadata) -> (r: Option<Vec<u8>>)
    ensures
        r is Some <==> m.fits(),
        r matches Some(b) ==> b@ == m.bcs(),
        r matches Some(b) ==> read_module(b@) == Some((module_fields(*m), Seq::<u8>::empty())),
{
    proof {
        law_module_metadata_decodes(*m, Seq::empty());
        assert(m.bcs() + Seq::<u8>::empty() =~= m.bcs());
    }
    let mut out = match bcs_str(m.name.as_str()) {
        Some(b) => b,
        None => return None,
    };
    let mut source = match bcs_byte_seq(m.source.as_slice()) {
        Some(b) => b,
        None => return None,
    };
    let mut source_map = match bcs_byte_seq(m.source_map.as_slice()) {
        Some(b) => b,
        None => return None,
    };
    let mut extension = match bcs_byte_seq(m.extension.as_slice()) {
        Some(b) => b,
        None => return None,
    };
    out.append(&mut source);
    out.append(&mut source_map);
    out.append(&mut extension);
    Some(out)
}

/// BCS encoding of a dependency; `None` when its name is over the BCS limit.
pub fn encode_package_dep(d: &PackageDep) -> (r: Option<Vec<u8>>)
    ensures
        r is Some <==> d.fits(),
        r matches Some(b) ==> b@ == d.bcs(),
{
    let mut out = bcs_account_address(&d.account);
    let mut name = match bcs_str(d.package_name.as_str()) {
        Some(b) => b,
        None => return None,
    };
    out.append(&mut name);
    Some(out)
}

/// BCS encoding of a vector of module metadata; `None` when the vector or a
/// sequence in one of its elements is over the BCS limit.
pub fn encode_modules(ms: &Vec<ModuleMetadata>) -> (r: Option<Vec<u8>>)
    ensures
        r is Some <==> fits_sequence(ms@.len()) && forall|i: int|
            0 <= i < ms@.len() ==> (#[trigger] ms@[i]).fits(),
        r matches Some(b) ==> b@ == uleb128(ms@.len()) + modules_body(ms@),
{
    if ms.len() > MAX_SEQUENCE_LENGTH {
        return None;
    }
    let mut out = uleb128_bytes(ms.len());
    let ghost prefix = out@;
    let mut i: usize = 0;
    while i < ms.len()
        invariant
            i <= ms@.len(),
            prefix == uleb128(ms@.len()),
            out@ == prefix + modules_body(ms@.take(i as int)),
            forall|j: int| 0 <= j < i ==> (#[trigger] ms@[j]).fits(),
        decreases ms@.len() - i,
    {
        let mut piece = match encode_module_metadata(&ms[i]) {
            Some(b) => b,
            None => return None,
        };
        let ghost before = out@;
        out.append(&mut piece);
        assert(ms@.take(i + 1).drop_last() == ms@.take(i as int));
        assert(out@ == prefix + modules_body(ms@.take(i + 1)));
        i = i + 1;
    }
    assert(ms@.take(ms@.len() as int) == ms@);
    Some(out)
}

/// BCS encoding of a vector of dependencies; `None` when the vector or a name
/// in it is over the BCS limit.
pub fn encode_package_deps(ds: &Vec<PackageDep>) -> (r: Option<Vec<u8>>)
    ensures
        r is Some <==> fits_sequence(ds@.len()) && forall|i: int|
            0 <= i < ds@.len() ==> (#[trigger] ds@[i]).fits(),
        r matches Some(b) ==> b@ == uleb128(ds@.len()) + deps_body(ds@),
{
    if ds.len() > MAX_SEQUENCE_LENGTH {
        return None;
    }
    let mut out = uleb128_bytes(ds.len());
    let ghost prefix = out@;
    let mut i: usize = 0;
    while i < ds.len()
        invariant
            i <= ds@.len(),
            prefix == uleb128(ds@.len()),
            out@ == prefix + deps_body(ds@.take(i as int)),
            forall|j: int| 0 <= j < i ==> (#[trigger] ds@[j]).fits(),
        decreases ds@.len() - i,
    {
        let mut piece = match encode_package_dep(&ds[i]) {
            Some(b) => b,
            None => return None,
        };
        out.append(&mut piece);
        assert(ds@.take(i + 1).drop_last() == ds@.take(i as int));
        assert(out@ == prefix + deps_body(ds@.take(i + 1)));
        i = i + 1;
    }
    assert(ds@.take(ds@.len() as int) == ds@);
    Some(out)
}

/// BCS encoding of package metadata; `None` exactly when a sequence in it is
/// over the BCS limit.
pub fn encode_package_metadata(m: &PackageMetadata) -> (r: Option<Vec<u8>>)
    ensures
        r is Some <==> m.fits(),
        r matches Some(b) ==> b@ == m.bcs(),
        r matches Some(b) ==> read_package(b@) == Some((package_fields(*m), Seq::<u8>::empty())),
{
    proof {
        law_package_metadata_decodes(*m, Seq::empty());
        assert(m.bcs() + Seq::<u8>::empty() =~= m.bcs());
    }
    let mut out = match bcs_str(m.name.as_str()) {
        Some(b) => b,
        None => return None,
    };
    let mut policy = encode_upgrade_policy(&m.upgrade_policy);
    let mut number = bcs_u64(m.upgrade_number);
    let mut digest = match bcs_str(m.source_digest.as_str()) {
        Some(b) => b,
        None => return None,
    };
    let mut manifest = match bcs_byte_seq(m.manifest.as_slice()) {
        Some(b) => b,
        None => return None,
    };
    let mut modules = match encode_modules(&m.modules) {
        Some(b) => b,
        None => return None,
    };
    let mut deps = match encode_package_deps(&m.deps) {
        Some(b) => b,
        None => return None,
    };
    let mut extension = match bcs_byte_seq(m.extension.as_slice()) {
        Some(b) => b,
        None => return None,
    };
    out.append(&mut policy);
    out.append(&mut number);
    out.append(&mut digest);
    out.append(&mut manifest);
    out.append(&mut modules);
    out.append(&mut deps);
    out.append(&mut extension);
    Some(out)
}

} // verus!
