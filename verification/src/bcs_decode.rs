//! Reading BCS bytes back: a decoder for the package metadata, written from
//! the format itself, and the laws that the encoder's output decodes to the
//! values it was made from.
use vstd::prelude::*;
use vstd::utf8::encode_utf8;
use crate::bcs_format::{framed, le_u64, uleb128};
use vstd::seq_lib::lemma_concat_associative;
use crate::metadata::{ModuleMetadata, PackageDep, PackageMetadata, deps_body, modules_body};

verus! {

/// Reads a ULEB128 number: its value and the bytes after it.
pub open spec fn read_uleb128(b: Seq<u8>) -> Option<(nat, Seq<u8>)>
    decreases b.len(),
{
    if b.len() == 0 {
        None
    } else if b[0] < 128 {
        Some((b[0] as nat, b.drop_first()))
    } else {
        match read_uleb128(b.drop_first()) {
            Some((v, r)) => Some(((b[0] - 128) as nat + 128 * v, r)),
            None => None,
        }
    }
}

/// Reads a length-prefixed byte sequence: the bytes and what follows them.
pub open spec fn read_framed(b: Seq<u8>) -> Option<(Seq<u8>, Seq<u8>)> {
    match read_uleb128(b) {
        Some((len, r)) => if len <= r.len() {
            Some((r.take(len as int), r.skip(len as int)))
        } else {
            None
        },
        None => None,
    }
}

/// Reads one byte.
pub open spec fn read_u8(b: Seq<u8>) -> Option<(u8, Seq<u8>)> {
    if b.len() == 0 {
        None
    } else {
        Some((b[0], b.drop_first()))
    }
}

/// Reads a little-endian `u64`.
pub open spec fn read_u64(b: Seq<u8>) -> Option<(nat, Seq<u8>)> {
    if b.len() < 8 {
        None
    } else {
        Some(
            (
                (b[0] + 0x100 * b[1] + 0x1_0000 * b[2] + 0x100_0000 * b[3] + 0x1_0000_0000 * b[4]
                    + 0x100_0000_0000 * b[5] + 0x1_0000_0000_0000 * b[6] + 0x100_0000_0000_0000
                    * b[7]) as nat,
                b.skip(8),
            ),
        )
    }
}

/// The fields of one module's metadata as read back: the name's UTF-8 bytes,
/// the source, the source map and the extension.
pub type ModuleFields = (Seq<u8>, Seq<u8>, Seq<u8>, Seq<u8>);

/// The fields of one dependency as read back: the address bytes and the
/// name's UTF-8 bytes.
pub type DepFields = (Seq<u8>, Seq<u8>);

/// The fields of package metadata as read back, in declaration order.
pub type PackageFields = (Seq<u8>, u8, nat, Seq<u8>, Seq<u8>, Seq<ModuleFields>, Seq<DepFields>, Seq<u8>);

/// Reads one module's metadata: four length-prefixed byte sequences.
pub open spec fn read_module(b: Seq<u8>) -> Option<(ModuleFields, Seq<u8>)> {
    match read_framed(b) {
        Some((name, r1)) => match read_framed(r1) {
            Some((source, r2)) => match read_framed(r2) {
                Some((source_map, r3)) => match read_framed(r3) {
                    Some((extension, r4)) => Some(((name, source, source_map, extension), r4)),
                    None => None,
                },
                None => None,
            },
            None => None,
        },
        None => None,
    }
}

/// Reads `n` modules' metadata, one after the other.
pub open spec fn read_modules(b: Seq<u8>, n: nat) -> Option<(Seq<ModuleFields>, Seq<u8>)>
    decreases n,
{
    if n == 0 {
        Some((Seq::empty(), b))
    } else {
        match read_modules(b, (n - 1) as nat) {
            Some((ms, r)) => match read_module(r) {
                Some((m, r2)) => Some((ms.push(m), r2)),
                None => None,
            },
            None => None,
        }
    }
}

/// Reads one dependency: 32 address bytes, then a length-prefixed name.
pub open spec fn read_dep(b: Seq<u8>) -> Option<(DepFields, Seq<u8>)> {
    if b.len() < 32 {
        None
    } else {
        match read_framed(b.skip(32)) {
            Some((name, r)) => Some(((b.take(32), name), r)),
            None => None,
        }
    }
}

/// Reads `n` dependencies, one after the other.
pub open spec fn read_deps(b: Seq<u8>, n: nat) -> Option<(Seq<DepFields>, Seq<u8>)>
    decreases n,
{
    if n == 0 {
        Some((Seq::empty(), b))
    } else {
        match read_deps(b, (n - 1) as nat) {
            Some((ds, r)) => match read_dep(r) {
                Some((d, r2)) => Some((ds.push(d), r2)),
                None => None,
            },
            None => None,
        }
    }
}

/// Reads package metadata: the name, the policy byte, the upgrade number,
/// the digest, the manifest, the counted modules, the counted dependencies
/// and the extension.
pub open spec fn read_package(b: Seq<u8>) -> Option<(PackageFields, Seq<u8>)> {
    match read_framed(b) {
        Some((name, r1)) => match read_u8(r1) {
            Some((policy, r2)) => match read_u64(r2) {
                Some((number, r3)) => match read_framed(r3) {
                    Some((digest, r4)) => match read_framed(r4) {
                        Some((manifest, r5)) => match read_uleb128(r5) {
                            Some((nm, r6)) => match read_modules(r6, nm) {
                                Some((modules, r7)) => match read_uleb128(r7) {
                                    Some((nd, r8)) => match read_deps(r8, nd) {
                                        Some((deps, r9)) => match read_framed(r9) {
                                            Some((extension, r10)) => Some(
                                                (
                                                    (
                                                        name,
                                                        policy,
                                                        number,
                                                        digest,
                                                        manifest,
                                                        modules,
                                                        deps,
                                                        extension,
                                                    ),
                                                    r10,
                                                ),
                                            ),
                                            None => None,
                                        },
                                        None => None,
                                    },
                                    None => None,
                                },
                                None => None,
                            },
                            None => None,
                        },
                        None => None,
                    },
                    None => None,
                },
                None => None,
            },
            None => None,
        },
        None => None,
    }
}

/// What a module's metadata should read back as.
pub open spec fn module_fields(m: ModuleMetadata) -> ModuleFields {
    (encode_utf8(m.name@), m.source@, m.source_map@, m.extension@)
}

/// What a dependency should read back as.
pub open spec fn dep_fields(d: PackageDep) -> DepFields {
    (d.account@, encode_utf8(d.package_name@))
}

/// What package metadata should read back as.
pub open spec fn package_fields(m: PackageMetadata) -> PackageFields {
    (
        encode_utf8(m.name@),
        m.upgrade_policy.policy,
        m.upgrade_number as nat,
        encode_utf8(m.source_digest@),
        m.manifest@,
        m.modules@.map_values(|x: ModuleMetadata| module_fields(x)),
        m.deps@.map_values(|d: PackageDep| dep_fields(d)),
        m.extension@,
    )
}

/// A ULEB128 number reads back as itself, leaving what follows it.
pub proof fn law_uleb128_decodes(n: nat, rest: Seq<u8>)
    ensures
        read_uleb128(uleb128(n) + rest) == Some((n, rest)),
    decreases n,
{
    if n < 128 {
        assert((seq![n as u8] + rest).drop_first() =~= rest);
    } else {
        let b: u8 = (n % 128 + 128) as u8;
        let all = uleb128(n) + rest;
        assert(uleb128(n) == seq![b] + uleb128(n / 128));
        assert(all.drop_first() =~= uleb128(n / 128) + rest);
        assert(all[0] == b);
        law_uleb128_decodes(n / 128, rest);
        assert((b - 128) as nat + 128 * (n / 128) == n);
    }
}

/// A length-prefixed byte sequence reads back as itself, leaving what
/// follows it.
pub proof fn law_framed_decodes(x: Seq<u8>, rest: Seq<u8>)
    ensures
        read_framed(framed(x) + rest) == Some((x, rest)),
{
    assert(framed(x) + rest =~= uleb128(x.len()) + (x + rest));
    law_uleb128_decodes(x.len(), x + rest);
    assert((x + rest).take(x.len() as int) =~= x);
    assert((x + rest).skip(x.len() as int) =~= rest);
}

/// The encoding of a module's metadata reads back as its name's UTF-8
/// bytes, its source, its source map and its extension, in that order,
/// leaving what follows it.
pub proof fn law_module_metadata_decodes(m: ModuleMetadata, rest: Seq<u8>)
    ensures
        read_module(m.bcs() + rest) == Some((module_fields(m), rest)),
{
    let n = encode_utf8(m.name@);
    let r3 = framed(m.extension@) + rest;
    let r2 = framed(m.source_map@) + r3;
    let r1 = framed(m.source@) + r2;
    assert(m.bcs() + rest =~= framed(n) + r1);
    law_framed_decodes(n, r1);
    law_framed_decodes(m.source@, r2);
    law_framed_decodes(m.source_map@, r3);
    law_framed_decodes(m.extension@, rest);
}

/// The concatenated encodings of a sequence of modules read back, module by
/// module, as their fields.
proof fn lemma_modules_decode(ms: Seq<ModuleMetadata>, rest: Seq<u8>)
    ensures
        read_modules(modules_body(ms) + rest, ms.len()) == Some(
            (ms.map_values(|x: ModuleMetadata| module_fields(x)), rest),
        ),
    decreases ms.len(),
{
    if ms.len() > 0 {
        let d = ms.drop_last();
        let tail = ms.last().bcs() + rest;
        assert(modules_body(ms) + rest =~= modules_body(d) + tail);
        lemma_modules_decode(d, tail);
        law_module_metadata_decodes(ms.last(), rest);
        assert(d.map_values(|x: ModuleMetadata| module_fields(x)).push(module_fields(ms.last()))
            =~= ms.map_values(|x: ModuleMetadata| module_fields(x)));
    } else {
        assert(ms.map_values(|x: ModuleMetadata| module_fields(x)) =~= Seq::<ModuleFields>::empty());
    }
}

/// The encoding of a dependency reads back as its address bytes and its
/// name's UTF-8 bytes, leaving what follows it.
pub proof fn law_package_dep_decodes(d: PackageDep, rest: Seq<u8>)
    ensures
        read_dep(d.bcs() + rest) == Some((dep_fields(d), rest)),
{
    let all = d.bcs() + rest;
    let tail = framed(encode_utf8(d.package_name@)) + rest;
    assert(all =~= d.account@ + tail);
    assert(all.take(32) =~= d.account@);
    assert(all.skip(32) =~= tail);
    law_framed_decodes(encode_utf8(d.package_name@), rest);
}

/// The concatenated encodings of a sequence of dependencies read back, one
/// by one, as their fields.
proof fn lemma_deps_decode(ds: Seq<PackageDep>, rest: Seq<u8>)
    ensures
        read_deps(deps_body(ds) + rest, ds.len()) == Some(
            (ds.map_values(|d: PackageDep| dep_fields(d)), rest),
        ),
    decreases ds.len(),
{
    if ds.len() > 0 {
        let d = ds.drop_last();
        let tail = ds.last().bcs() + rest;
        assert(deps_body(ds) + rest =~= deps_body(d) + tail);
        lemma_deps_decode(d, tail);
        law_package_dep_decodes(ds.last(), rest);
        assert(d.map_values(|x: PackageDep| dep_fields(x)).push(dep_fields(ds.last()))
            =~= ds.map_values(|x: PackageDep| dep_fields(x)));
    } else {
        assert(ds.map_values(|x: PackageDep| dep_fields(x)) =~= Seq::<DepFields>::empty());
    }
}

/// Eight little-endian bytes read back as the `u64` they were made from.
pub proof fn law_u64_decodes(v: u64, rest: Seq<u8>)
    ensures
        read_u64(le_u64(v) + rest) == Some((v as nat, rest)),
{
    let b = le_u64(v) + rest;
    assert(b.skip(8) =~= rest);
    assert(b[0] == (v % 0x100) as u8);
    assert(b[1] == ((v / 0x100) % 0x100) as u8);
    assert(b[2] == ((v / 0x1_0000) % 0x100) as u8);
    assert(b[3] == ((v / 0x100_0000) % 0x100) as u8);
    assert(b[4] == ((v / 0x1_0000_0000) % 0x100) as u8);
    assert(b[5] == ((v / 0x100_0000_0000) % 0x100) as u8);
    assert(b[6] == ((v / 0x1_0000_0000_0000) % 0x100) as u8);
    assert(b[7] == ((v / 0x100_0000_0000_0000) % 0x100) as u8);
    assert((v % 0x100) + 0x100 * ((v / 0x100) % 0x100) + 0x1_0000 * ((v / 0x1_0000) % 0x100)
        + 0x100_0000 * ((v / 0x100_0000) % 0x100) + 0x1_0000_0000 * ((v / 0x1_0000_0000) % 0x100)
        + 0x100_0000_0000 * ((v / 0x100_0000_0000) % 0x100) + 0x1_0000_0000_0000 * ((v
        / 0x1_0000_0000_0000) % 0x100) + 0x100_0000_0000_0000 * ((v / 0x100_0000_0000_0000)
        % 0x100) == v) by (bit_vector);
}

/// The encoding of package metadata reads back as its fields in declaration
/// order: the name's UTF-8 bytes, the policy byte, the upgrade number, the
/// digest's UTF-8 bytes, the manifest, each module's fields, each
/// dependency's fields and the extension, leaving what follows it.
#[verifier::rlimit(50)]
pub proof fn law_package_metadata_decodes(m: PackageMetadata, rest: Seq<u8>)
    ensures
        read_package(m.bcs() + rest) == Some((package_fields(m), rest)),
{
    let name = encode_utf8(m.name@);
    let digest = encode_utf8(m.source_digest@);
    let r9 = framed(m.extension@) + rest;
    let r8 = deps_body(m.deps@) + r9;
    let r7 = uleb128(m.deps@.len()) + r8;
    let r6 = modules_body(m.modules@) + r7;
    let r5 = uleb128(m.modules@.len()) + r6;
    let r4 = framed(m.manifest@) + r5;
    let r3 = framed(digest) + r4;
    let r2 = le_u64(m.upgrade_number) + r3;
    let r1 = seq![m.upgrade_policy.policy] + r2;
    lemma_package_layout(m, rest);
    law_framed_decodes(name, r1);
    assert(read_u8(r1) == Some((m.upgrade_policy.policy, r2))) by {
        assert(r1.drop_first() =~= r2);
    }
    law_u64_decodes(m.upgrade_number, r3);
    law_framed_decodes(digest, r4);
    law_framed_decodes(m.manifest@, r5);
    law_uleb128_decodes(m.modules@.len(), r6);
    lemma_modules_decode(m.modules@, r7);
    law_uleb128_decodes(m.deps@.len(), r8);
    lemma_deps_decode(m.deps@, r9);
    law_framed_decodes(m.extension@, rest);
}

/// The encoding of package metadata followed by `rest`, as nested
/// concatenations that each reading step takes apart.
proof fn lemma_package_layout(m: PackageMetadata, rest: Seq<u8>)
    ensures
        m.bcs() + rest == framed(encode_utf8(m.name@)) + (seq![m.upgrade_policy.policy] + (le_u64(
            m.upgrade_number,
        ) + (framed(encode_utf8(m.source_digest@)) + (framed(m.manifest@) + (uleb128(
            m.modules@.len(),
        ) + (modules_body(m.modules@) + (uleb128(m.deps@.len()) + (deps_body(m.deps@) + (
        framed(m.extension@) + rest))))))))),
{
    let a0 = framed(encode_utf8(m.name@));
    let a1 = seq![m.upgrade_policy.policy];
    let a2 = le_u64(m.upgrade_number);
    let a3 = framed(encode_utf8(m.source_digest@));
    let a4 = framed(m.manifest@);
    let a5 = uleb128(m.modules@.len());
    let a6 = modules_body(m.modules@);
    let a7 = uleb128(m.deps@.len());
    let a8 = deps_body(m.deps@);
    let a9 = framed(m.extension@);
    assert(m.bcs() == a0 + a1 + a2 + a3 + a4 + a5 + a6 + a7 + a8 + a9);
    lemma_concat_associative(a0 + a1 + a2 + a3 + a4 + a5 + a6 + a7 + a8, a9, rest);
    lemma_concat_associative(a0 + a1 + a2 + a3 + a4 + a5 + a6 + a7, a8, a9 + rest);
    lemma_concat_associative(a0 + a1 + a2 + a3 + a4 + a5 + a6, a7, a8 + (a9 + rest));
    lemma_concat_associative(a0 + a1 + a2 + a3 + a4 + a5, a6, a7 + (a8 + (a9 + rest)));
    lemma_concat_associative(a0 + a1 + a2 + a3 + a4, a5, a6 + (a7 + (a8 + (a9 + rest))));
    lemma_concat_associative(a0 + a1 + a2 + a3, a4, a5 + (a6 + (a7 + (a8 + (a9 + rest)))));
    lemma_concat_associative(a0 + a1 + a2, a3, a4 + (a5 + (a6 + (a7 + (a8 + (a9 + rest))))));
    lemma_concat_associative(a0 + a1, a2, a3 + (a4 + (a5 + (a6 + (a7 + (a8 + (a9 + rest)))))));
    lemma_concat_associative(a0, a1, a2 + (a3 + (a4 + (a5 + (a6 + (a7 + (a8 + (a9 + rest))))))));
}

} // verus!
