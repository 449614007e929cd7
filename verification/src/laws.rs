//! Laws that say what the compiler input, the build check and the metadata
//! limits are, in terms of the inputs themselves.
use vstd::prelude::*;
use vstd::utf8::encode_utf8;
use crate::assoc::{zip_prefix, zip_view};
use crate::package::{
    BuildOutcome, CompiledUnit, Compiler, IndexedPackage, Module, SourceFile, deps_files,
    lemma_package_files, names_view, package_files,
};
use crate::metadata::PackageMetadata;

verus! {

/// Zipping keeps every pair up to the shorter input: the map's keys are
/// exactly the first `n` keys, `n` the shorter length, and a key maps to the
/// value paired with its last occurrence among them.
pub proof fn law_zip_view(keys: Seq<String>, vals: Seq<String>)
    ensures
        ({
            let n = if keys.len() <= vals.len() { keys.len() } else { vals.len() };
            &&& forall|i: int| 0 <= i < n ==> zip_view(keys, vals).contains_key(#[trigger] keys[i]@)
            &&& forall|k: Seq<char>|
                zip_view(keys, vals).contains_key(k) ==> exists|i: int|
                    0 <= i < n && #[trigger] keys[i]@ == k
            &&& forall|i: int|
                0 <= i < n && (forall|j: int| i < j < n ==> keys[j]@ != keys[i]@) ==> zip_view(
                    keys,
                    vals,
                )[#[trigger] keys[i]@] == vals[i]@
        }),
{
    let n = if keys.len() <= vals.len() { keys.len() } else { vals.len() };
    lemma_zip_prefix(keys, vals, n);
}

/// [`law_zip_view`] for the first `n` pairs.
proof fn lemma_zip_prefix(keys: Seq<String>, vals: Seq<String>, n: nat)
    requires
        n <= keys.len(),
        n <= vals.len(),
    ensures
        forall|i: int| 0 <= i < n ==> zip_prefix(keys, vals, n).contains_key(#[trigger] keys[i]@),
        forall|k: Seq<char>|
            zip_prefix(keys, vals, n).contains_key(k) ==> exists|i: int|
                0 <= i < n && #[trigger] keys[i]@ == k,
        forall|i: int|
            0 <= i < n && (forall|j: int| i < j < n ==> keys[j]@ != keys[i]@) ==> zip_prefix(
                keys,
                vals,
                n,
            )[#[trigger] keys[i]@] == vals[i]@,
    decreases n,
{
    if n > 0 {
        let m = (n - 1) as nat;
        lemma_zip_prefix(keys, vals, m);
        assert forall|k: Seq<char>| zip_prefix(keys, vals, n).contains_key(k) implies exists|i: int|
            0 <= i < n && #[trigger] keys[i]@ == k by {
            if k != keys[m as int]@ {
                assert(zip_prefix(keys, vals, m).contains_key(k));
            }
        }
        assert forall|i: int|
            0 <= i < n && (forall|j: int| i < j < n ==> keys[j]@ != keys[i]@) implies zip_prefix(
            keys,
            vals,
            n,
        )[#[trigger] keys[i]@] == vals[i]@ by {
            if i < m {
                assert(keys[m as int]@ != keys[i]@);
            }
        }
    }
}

/// Checking a build answers the diagnostics that the outcome carries,
/// whatever the outcome: the units of a successful compilation play no part.
pub proof fn law_report_is_the_diagnostics(outcome: BuildOutcome)
    ensures
        outcome matches BuildOutcome::ParseFailed { report } ==> outcome.report() == report,
        outcome matches BuildOutcome::CompileFailed { report } ==> outcome.report() == report,
        outcome matches BuildOutcome::Compiled { report, .. } ==> outcome.report() == report,
{
}

/// The metadata of a build can be encoded exactly when the package name, the
/// number of compiled modules and each module name are within the BCS limit
/// of `2^31 - 1`; this is also exactly when the metadata made for those
/// modules encodes.
pub proof fn law_metadata_limits(c: Compiler, units: Seq<CompiledUnit>, m: PackageMetadata)
    requires
        c.metadata_spec(m, units.map_values(|u: CompiledUnit| u.name)),
    ensures
        c.metadata_fits(units) <==> (encode_utf8(c.package_name@).len() <= 0x7fff_ffff
            && units.len() <= 0x7fff_ffff && forall|i: int|
            0 <= i < units.len() ==> encode_utf8((#[trigger] units[i]).name@).len()
                <= 0x7fff_ffff),
        c.metadata_fits(units) <==> m.fits(),
{
    reveal_strlit("MoveStdlib");
    crate::package::lemma_utf8_len_bound(m.deps@[0].package_name@);
    assert(encode_utf8(m.source_digest@).len() == 0);
    if c.metadata_fits(units) {
        assert forall|k: int| 0 <= k < m.modules@.len() implies (#[trigger] m.modules@[k]).fits() by {
            assert(m.modules@[k].name == units[k].name);
        }
        assert(m.deps@[0].fits());
    }
    if m.fits() {
        assert forall|k: int| 0 <= k < units.len() implies crate::bcs_format::fits_str(
            (#[trigger] units[k]).name@,
        ) by {
            assert(m.modules@[k].name == units[k].name);
            assert(m.modules@[k].fits());
        }
    }
}


/// Number of source entries in the first `i` packages of `ds`.
pub open spec fn entries_before(ds: Seq<IndexedPackage>, i: int) -> int
    decreases i,
{
    if i <= 0 {
        0
    } else {
        entries_before(ds, i - 1) + ds[i - 1].source.entries().len()
    }
}

/// The file for entry `j` of package `p`.
pub open spec fn file_of(p: IndexedPackage, j: int, is_dependency: bool) -> SourceFile {
    SourceFile {
        name: p.source.entries()[j].0,
        content: p.source.entries()[j].1,
        named_address_map: p.named_address_map,
        is_dependency,
    }
}

/// `entries_before` reads only the packages it counts.
proof fn lemma_entries_before_prefix(a: Seq<IndexedPackage>, b: Seq<IndexedPackage>, i: int)
    requires
        0 <= i <= a.len(),
        i <= b.len(),
        forall|k: int| 0 <= k < i ==> a[k] == b[k],
    ensures
        entries_before(a, i) == entries_before(b, i),
    decreases i,
{
    if i > 0 {
        lemma_entries_before_prefix(a, b, i - 1);
        assert(a[i - 1] == b[i - 1]);
    }
}

/// The files of a sequence of dependencies: those of each dependency in
/// turn, entry by entry.
proof fn lemma_deps_files_layout(ds: Seq<IndexedPackage>)
    ensures
        deps_files(ds).len() == entries_before(ds, ds.len() as int),
        forall|i: int, j: int|
            0 <= i < ds.len() && 0 <= j < ds[i].source.entries().len() ==> deps_files(
                ds,
            )[entries_before(ds, i) + j] == #[trigger] file_of(ds[i], j, true),
    decreases ds.len(),
{
    if ds.len() > 0 {
        let d = ds.drop_last();
        let n = ds.len() - 1;
        lemma_deps_files_layout(d);
        lemma_entries_before_prefix(ds, d, n);
        lemma_package_files(ds[n], true);
        assert(ds.last() == ds[n]);
        assert(deps_files(ds) == deps_files(d) + package_files(ds[n], true));
        assert(entries_before(ds, ds.len() as int) == entries_before(ds, n) + ds[n].source.entries().len());
        assert forall|i: int, j: int|
            0 <= i < ds.len() && 0 <= j < ds[i].source.entries().len() implies deps_files(
            ds,
        )[entries_before(ds, i) + j] == #[trigger] file_of(ds[i], j, true) by {
            if i < n {
                lemma_entries_before_prefix(ds, d, i);
                assert(d[i] == ds[i]);
                assert(entries_before(d, i + 1) == entries_before(d, i) + d[i].source.entries().len());
                lemma_entries_before_monotone(d, i + 1, n);
                lemma_entries_before_monotone(d, 0, i);
                let x = entries_before(d, i) + j;
                assert(0 <= i < d.len());
                assert(0 <= j < d[i].source.entries().len());
                assert(x < deps_files(d).len());
                assert(deps_files(d)[x] == file_of(d[i], j, true));
                assert((deps_files(d) + package_files(ds[n], true))[x] == deps_files(d)[x]);
            } else {
                assert(i == n);
                lemma_entries_before_monotone(d, 0, n);
                assert(package_files(ds[n], true)[j] == file_of(ds[n], j, true));
                assert(deps_files(ds)[entries_before(ds, i) + j] == package_files(ds[n], true)[j]);
            }
        }
    }
}

/// `entries_before` does not decrease.
proof fn lemma_entries_before_monotone(ds: Seq<IndexedPackage>, i: int, k: int)
    requires
        0 <= i <= k <= ds.len(),
    ensures
        entries_before(ds, i) <= entries_before(ds, k),
    decreases k - i,
{
    if i < k {
        lemma_entries_before_monotone(ds, i, k - 1);
    }
}

/// The files parsed for a build are the package's own files, entry by entry,
/// followed by every file of every dependency, dependency by dependency and
/// entry by entry; each carries its package's address map, and only the
/// dependencies' files are marked as dependency files.
pub proof fn law_source_files_layout(c: Compiler)
    ensures
        c.files().len() == c.targets.source.entries().len() + entries_before(
            c.deps@,
            c.deps@.len() as int,
        ),
        forall|j: int|
            0 <= j < c.targets.source.entries().len() ==> c.files()[j] == #[trigger] file_of(
                c.targets,
                j,
                false,
            ),
        forall|i: int, j: int|
            0 <= i < c.deps@.len() && 0 <= j < c.deps@[i].source.entries().len() ==> c.files()[c.targets.source.entries().len()
                + entries_before(c.deps@, i) + j] == #[trigger] file_of(c.deps@[i], j, true),
{
    let own = package_files(c.targets, false);
    lemma_package_files(c.targets, false);
    lemma_deps_files_layout(c.deps@);
    assert forall|j: int| 0 <= j < c.targets.source.entries().len() implies c.files()[j]
        == #[trigger] file_of(c.targets, j, false) by {
        assert(own[j] == file_of(c.targets, j, false));
    }
    assert forall|i: int, j: int|
        0 <= i < c.deps@.len() && 0 <= j < c.deps@[i].source.entries().len() implies c.files()[c.targets.source.entries().len()
            + entries_before(c.deps@, i) + j] == #[trigger] file_of(c.deps@[i], j, true) by {
        assert(entries_before(c.deps@, i + 1) == entries_before(c.deps@, i)
            + c.deps@[i].source.entries().len());
        lemma_entries_before_monotone(c.deps@, 0, i);
        lemma_entries_before_monotone(c.deps@, i + 1, c.deps@.len() as int);
        assert(deps_files(c.deps@)[entries_before(c.deps@, i) + j] == file_of(c.deps@[i], j, true));
    }
}

/// For the compiler input made from a build request, the files parsed for
/// dependency `i` are one contiguous run of the parsed files, and they map
/// each file name of that dependency's request to its content.
pub proof fn law_dependency_files(m: Module, c: Compiler)
    requires
        m.indexes(c),
    ensures
        forall|i: int|
            0 <= i < c.deps@.len() ==> names_view(
                c.files().subrange(
                    c.targets.source.entries().len() + entries_before(c.deps@, i),
                    c.targets.source.entries().len() + entries_before(c.deps@, i)
                        + c.deps@[i].source.entries().len(),
                ),
            ) == zip_view(m.deps_symbols@[i]@, #[trigger] m.deps_source@[i]@),
{
    law_source_files_layout(c);
    assert forall|i: int| 0 <= i < c.deps@.len() implies names_view(
        c.files().subrange(
            c.targets.source.entries().len() + entries_before(c.deps@, i),
            c.targets.source.entries().len() + entries_before(c.deps@, i)
                + c.deps@[i].source.entries().len(),
        ),
    ) == zip_view(m.deps_symbols@[i]@, #[trigger] m.deps_source@[i]@) by {
        let start = c.targets.source.entries().len() + entries_before(c.deps@, i);
        let len = c.deps@[i].source.entries().len();
        lemma_entries_before_prefix(c.deps@, c.deps@, i + 1);
        lemma_entries_before_monotone(c.deps@, i + 1, c.deps@.len() as int);
        lemma_package_files(c.deps@[i], true);
        assert(entries_before(c.deps@, i + 1) == entries_before(c.deps@, i) + len);
        lemma_entries_before_monotone(c.deps@, 0, i);
        assert(start + len <= c.files().len());
        assert forall|j: int| 0 <= j < len implies c.files().subrange(start, start + len)[j]
            == package_files(c.deps@[i], true)[j] by {
            assert(c.files()[start + j] == file_of(c.deps@[i], j, true));
            assert(package_files(c.deps@[i], true)[j] == file_of(c.deps@[i], j, true));
        }
        assert(c.files().subrange(start, start + len) =~= package_files(c.deps@[i], true));
    }
}

} // verus!
