//! The package that a build request describes, the compiler input derived
//! from it, and the decisions taken on what the Move compiler reports.
use vstd::prelude::*;
use vstd::utf8::{encode_utf8, encode_scalar};
use crate::assoc::{StringMap, assoc_view, min_len, zip_collect, zip_view};
use crate::bcs_format::{MAX_SEQUENCE_LENGTH, fits_sequence, fits_str, uleb128};
use crate::metadata::{
    ModuleMetadata, PackageDep, PackageMetadata, UpgradePolicy, encode_package_metadata,
    deps_body, modules_body, standard_account_address, standard_address_bytes,
};

verus! {

/// A build request: the package's name, its source files and named
/// addresses, and the source files of each dependency, given as parallel
/// vectors of names and contents.
pub struct Module {
    pub package_name: String,
    pub target_symbols: Vec<String>,
    pub target_source: Vec<String>,
    pub target_named_address_symbol: Vec<String>,
    pub target_named_address: Vec<String>,
    pub deps_symbols: Vec<Vec<String>>,
    pub deps_source: Vec<Vec<String>>,
}

/// Source files of one package, by file name, and the index of the named
/// address map that its code is compiled against.
pub struct IndexedPackage {
    pub source: StringMap,
    pub named_address_map: usize,
}

/// Compiler input: the package name, the named address maps (each a map from
/// address name to address literal), the package's own sources and those of
/// its dependencies.
pub struct Compiler {
    pub package_name: String,
    pub maps: Vec<StringMap>,
    pub targets: IndexedPackage,
    pub deps: Vec<IndexedPackage>,
}

/// One source file handed to the parser.
pub struct SourceFile {
    pub name: String,
    pub content: String,
    pub named_address_map: usize,
    pub is_dependency: bool,
}

/// A module that the compiler produced: its name and its serialized bytecode.
pub struct CompiledUnit {
    pub name: String,
    pub bytes: Vec<u8>,
}

/// What the Move compiler reported for a package: parsing failed, or parsing
/// succeeded and compilation failed, or compilation succeeded. Each carries the
/// rendered diagnostics.
pub enum BuildOutcome {
    ParseFailed { report: String },
    CompileFailed { report: String },
    Compiled { units: Vec<CompiledUnit>, report: String },
}

/// What follows parsing a package's files.
pub enum BuildStep {
    Compile,
    ReportParseFailure,
}

/// After parsing: compile when no file failed to parse, else report the parse
/// diagnostics and stop.
pub fn step_after_parsing(failed_files: usize) -> (r: BuildStep)
    ensures
        r is Compile <==> failed_files == 0,
{
    if failed_files == 0 {
        BuildStep::Compile
    } else {
        BuildStep::ReportParseFailure
    }
}

impl BuildOutcome {
    /// The rendered diagnostics of the outcome.
    pub open spec fn report(self) -> String {
        match self {
            BuildOutcome::ParseFailed { report } => report,
            BuildOutcome::CompileFailed { report } => report,
            BuildOutcome::Compiled { report, .. } => report,
        }
    }
}

/// The files of one package, in order, as the parser receives them.
pub open spec fn package_files(p: IndexedPackage, is_dependency: bool) -> Seq<SourceFile> {
    p.source.entries().map_values(
        |e: (String, String)|
            SourceFile {
                name: e.0,
                content: e.1,
                named_address_map: p.named_address_map,
                is_dependency,
            },
    )
}

/// The files of a sequence of dependencies, in order.
pub open spec fn deps_files(ds: Seq<IndexedPackage>) -> Seq<SourceFile>
    decreases ds.len(),
{
    if ds.len() == 0 {
        Seq::empty()
    } else {
        deps_files(ds.drop_last()) + package_files(ds.last(), true)
    }
}

/// The table from file content to file name that diagnostics are rendered
/// against: a later file with the same content overrides an earlier one.
pub open spec fn files_table_of(fs: Seq<SourceFile>) -> Map<Seq<char>, Seq<char>>
    decreases fs.len(),
{
    if fs.len() == 0 {
        Map::empty()
    } else {
        files_table_of(fs.drop_last()).insert(fs.last().content@, fs.last().name@)
    }
}

/// The UTF-8 form of a string has at most four bytes per character.
pub proof fn lemma_utf8_len_bound(s: Seq<char>)
    ensures
        encode_utf8(s).len() <= 4 * s.len(),
    decreases s.len(),
{
    if s.len() > 0 {
        lemma_utf8_len_bound(s.drop_first());
        assert(encode_scalar(s[0] as u32).len() <= 4);
    }
}

impl Module {
    /// `c` is the compiler input for this request: same package name; one
    /// address map, made by zipping the address names with the address
    /// literals; the package's own sources, made by zipping file names with
    /// contents; one dependency per pair of name and content vectors, up to the
    /// shorter of the two, each made the same way; and every package compiled
    /// against the first address map.
    pub open spec fn indexes(self, c: Compiler) -> bool {
        &&& c.package_name == self.package_name
        &&& c.maps@.len() == 1
        &&& c.maps@[0]@ == zip_view(
            self.target_named_address_symbol@,
            self.target_named_address@,
        )
        &&& c.targets.named_address_map == 0
        &&& c.targets.source@ == zip_view(self.target_symbols@, self.target_source@)
        &&& c.deps@.len() == min_len(self.deps_symbols@.len(), self.deps_source@.len())
        &&& forall|i: int|
            0 <= i < c.deps@.len() ==> {
                &&& (#[trigger] c.deps@[i]).named_address_map == 0
                &&& c.deps@[i].source@ == zip_view(
                    self.deps_symbols@[i]@,
                    self.deps_source@[i]@,
                )
            }
    }

    /// Turns a build request into compiler input. The named addresses are
    /// collected into the one address map that every package of the request
    /// is compiled against; the sources of the package and of each dependency
    /// are collected into maps by file name. Zipping drops what the longer of
    /// two parallel vectors has beyond the shorter, and a later name overrides
    /// an earlier equal one.
    pub fn to_indexed_package(self) -> (r: Compiler)
        ensures
            self.indexes(r),
    {
        let named = zip_collect(&self.target_named_address_symbol, &self.target_named_address);
        let mut maps: Vec<StringMap> = Vec::new();
        maps.push(named);
        let targets_idx: usize = 0;
        let targets = zip_collect(&self.target_symbols, &self.target_source);
        let n: usize = if self.deps_symbols.len() <= self.deps_source.len() {
            self.deps_symbols.len()
        } else {
            self.deps_source.len()
        };
        let mut deps: Vec<IndexedPackage> = Vec::new();
        let mut i: usize = 0;
        while i < n
            invariant
                n == min_len(self.deps_symbols@.len(), self.deps_source@.len()),
                targets_idx == 0,
                i <= n,
                deps@.len() == i,
                forall|j: int|
                    0 <= j < i ==> {
                        &&& (#[trigger] deps@[j]).named_address_map == 0
                        &&& deps@[j].source@ == zip_view(
                            self.deps_symbols@[j]@,
                            self.deps_source@[j]@,
                        )
                    },
            decreases n - i,
        {
            let source = zip_collect(&self.deps_symbols[i], &self.deps_source[i]);
            deps.push(IndexedPackage { source, named_address_map: targets_idx });
            i = i + 1;
        }
        Compiler {
            package_name: self.package_name,
            maps,
            targets: IndexedPackage { source: targets, named_address_map: targets_idx },
            deps,
        }
    }
}

/// The files of one package, appended to `out`.
fn push_package_files(out: &mut Vec<SourceFile>, p: &IndexedPackage, is_dependency: bool)
    ensures
        final(out)@ == old(out)@ + package_files(*p, is_dependency),
{
    let ghost start = out@;
    let pairs = p.source.pairs();
    let mut i: usize = 0;
    while i < pairs.len()
        invariant
            pairs@ == p.source.entries(),
            i <= pairs@.len(),
            out@ == start + package_files(*p, is_dependency).take(i as int),
        decreases pairs@.len() - i,
    {
        let entry = &pairs[i];
        out.push(
            SourceFile {
                name: entry.0.clone(),
                content: entry.1.clone(),
                named_address_map: p.named_address_map,
                is_dependency,
            },
        );
        assert(package_files(*p, is_dependency).take(i + 1) == package_files(
            *p,
            is_dependency,
        ).take(i as int).push(package_files(*p, is_dependency)[i as int]));
        i = i + 1;
    }
    assert(package_files(*p, is_dependency).take(pairs@.len() as int) == package_files(
        *p,
        is_dependency,
    ));
}

impl Compiler {
    /// Every file that is parsed for a build, in order: the package's own
    /// files, then those of each dependency.
    pub open spec fn files(self) -> Seq<SourceFile> {
        package_files(self.targets, false) + deps_files(self.deps@)
    }

    /// The files to parse, in order: the package's own, then each
    /// dependency's, each with the address map it is compiled against.
    pub fn source_files(&self) -> (r: Vec<SourceFile>)
        ensures
            r@ == self.files(),
    {
        let mut out: Vec<SourceFile> = Vec::new();
        push_package_files(&mut out, &self.targets, false);
        let ghost own = out@;
        let mut i: usize = 0;
        while i < self.deps.len()
            invariant
                i <= self.deps@.len(),
                own == package_files(self.targets, false),
                out@ == own + deps_files(self.deps@.take(i as int)),
            decreases self.deps@.len() - i,
        {
            push_package_files(&mut out, &self.deps[i], true);
            assert(self.deps@.take(i + 1).drop_last() == self.deps@.take(i as int));
            i = i + 1;
        }
        assert(self.deps@.take(self.deps@.len() as int) == self.deps@);
        out
    }

    /// The table that diagnostics are rendered against: for each distinct
    /// file content, the name of the last file that has it.
    pub fn files_table(&self) -> (r: StringMap)
        ensures
            r@ == files_table_of(self.files()),
    {
        let files = self.source_files();
        let mut table = StringMap::new();
        let mut i: usize = 0;
        while i < files.len()
            invariant
                i <= files@.len(),
                files@ == self.files(),
                table@ == files_table_of(files@.take(i as int)),
            decreases files@.len() - i,
        {
            table.insert(files[i].content.clone(), files[i].name.clone());
            assert(files@.take(i + 1).drop_last() == files@.take(i as int));
            i = i + 1;
        }
        assert(files@.take(files@.len() as int) == files@);
        table
    }

    /// Checks a build: the rendered diagnostics, whatever the outcome.
    pub fn check_build(&self, outcome: &BuildOutcome) -> (r: Result<String, ()>)
        ensures
            r == Ok::<String, ()>(outcome.report()),
            *outcome matches BuildOutcome::ParseFailed { report } ==> r == Ok::<String, ()>(report),
            *outcome matches BuildOutcome::CompileFailed { report } ==> r == Ok::<String, ()>(
                report,
            ),
            *outcome matches BuildOutcome::Compiled { report, .. } ==> r == Ok::<String, ()>(report),
    {
        match outcome {
            BuildOutcome::ParseFailed { report } => Ok(report.clone()),
            BuildOutcome::CompileFailed { report } => Ok(report.clone()),
            BuildOutcome::Compiled { report, .. } => Ok(report.clone()),
        }
    }

    /// The metadata of the package, given the names of its compiled modules:
    /// compatible upgrades, upgrade number zero, no digest, manifest or
    /// extension, one empty module entry per name, and a dependency on
    /// `MoveStdlib` at address `0x1`.
    pub open spec fn metadata_spec(self, m: PackageMetadata, names: Seq<String>) -> bool {
        &&& m.name == self.package_name
        &&& m.upgrade_policy.policy == 1
        &&& m.upgrade_number == 0
        &&& m.source_digest@ == Seq::<char>::empty()
        &&& m.manifest@ == Seq::<u8>::empty()
        &&& m.modules@.len() == names.len()
        &&& forall|i: int|
            0 <= i < names.len() ==> {
                &&& (#[trigger] m.modules@[i]).name == names[i]
                &&& m.modules@[i].source@ == Seq::<u8>::empty()
                &&& m.modules@[i].source_map@ == Seq::<u8>::empty()
                &&& m.modules@[i].extension@ == Seq::<u8>::empty()
            }
        &&& m.deps@.len() == 1
        &&& m.deps@[0].account@ == standard_address_bytes()
        &&& m.deps@[0].package_name@ == "MoveStdlib"@
        &&& m.extension@ == Seq::<u8>::empty()
    }

    /// Whether the metadata built for these units can be encoded.
    pub open spec fn metadata_fits(self, units: Seq<CompiledUnit>) -> bool {
        &&& fits_str(self.package_name@)
        &&& fits_sequence(units.len())
        &&& forall|i: int| 0 <= i < units.len() ==> fits_str((#[trigger] units[i]).name@)
    }

    /// Builds the package metadata for the given module names.
    pub fn package_metadata(&self, names: &Vec<String>) -> (r: PackageMetadata)
        ensures
            self.metadata_spec(r, names@),
    {
        let mut modules: Vec<ModuleMetadata> = Vec::new();
        let mut i: usize = 0;
        while i < names.len()
            invariant
                i <= names@.len(),
                modules@.len() == i,
                forall|j: int|
                    0 <= j < i ==> {
                        &&& (#[trigger] modules@[j]).name == names@[j]
                        &&& modules@[j].source@ == Seq::<u8>::empty()
                        &&& modules@[j].source_map@ == Seq::<u8>::empty()
                        &&& modules@[j].extension@ == Seq::<u8>::empty()
                    },
            decreases names@.len() - i,
        {
            modules.push(
                ModuleMetadata {
                    name: names[i].clone(),
                    source: Vec::new(),
                    source_map: Vec::new(),
                    extension: Vec::new(),
                },
            );
            i = i + 1;
        }
        let mut deps: Vec<PackageDep> = Vec::new();
        deps.push(
            PackageDep {
                account: standard_account_address(),
                package_name: String::from_str("MoveStdlib"),
            },
        );
        PackageMetadata {
            name: self.package_name.clone(),
            upgrade_policy: UpgradePolicy::compat(),
            upgrade_number: 0,
            source_digest: String::new(),
            manifest: Vec::new(),
            modules,
            deps,
            extension: Vec::new(),
        }
    }

    /// `r` is what building the package gives for `outcome`: on a parse or
    /// compile failure, the rendered diagnostics as the error; on success, the
    /// BCS encoding of the package metadata for the compiled modules' names,
    /// and the bytecode of each compiled module, in the compiler's order.
    pub open spec fn builds(self, outcome: BuildOutcome, r: Result<(Vec<u8>, Vec<Vec<u8>>), String>) -> bool {
        match outcome {
            BuildOutcome::ParseFailed { report } => r == Err::<(Vec<u8>, Vec<Vec<u8>>), String>(report),
            BuildOutcome::CompileFailed { report } => r == Err::<(Vec<u8>, Vec<Vec<u8>>), String>(
                report,
            ),
            BuildOutcome::Compiled { units, .. } => r matches Ok((meta, code)) && exists|
                m: PackageMetadata,
            |
                self.metadata_spec(m, units@.map_values(|u: CompiledUnit| u.name)) && meta@
                    == m.bcs() && code@.len() == units@.len() && forall|i: int|
                    0 <= i < units@.len() ==> (#[trigger] code@[i])@ == units@[i].bytes@,
        }
    }

    /// Whether the metadata for these compiled units can be encoded: the
    /// condition that [`Compiler::build`] needs of a successful outcome.
    pub fn can_encode_metadata(&self, units: &Vec<CompiledUnit>) -> (r: bool)
        ensures
            r == self.metadata_fits(units@),
    {
        if self.package_name.as_str().as_bytes().len() > MAX_SEQUENCE_LENGTH {
            return false;
        }
        if units.len() > MAX_SEQUENCE_LENGTH {
            return false;
        }
        let mut i: usize = 0;
        while i < units.len()
            invariant
                i <= units@.len(),
                forall|j: int| 0 <= j < i ==> fits_str((#[trigger] units@[j]).name@),
            decreases units@.len() - i,
        {
            if units[i].name.as_str().as_bytes().len() > MAX_SEQUENCE_LENGTH {
                return false;
            }
            i = i + 1;
        }
        true
    }

    /// Builds the package: on a parse or compile failure, the rendered
    /// diagnostics as the error; on success, the BCS-encoded package metadata
    /// and the bytecode of each compiled module, in the compiler's order.
    pub fn build(&self, outcome: BuildOutcome) -> (r: Result<(Vec<u8>, Vec<Vec<u8>>), String>)
        requires
            outcome matches BuildOutcome::Compiled { units, .. } ==> self.metadata_fits(units@),
        ensures
            self.builds(outcome, r),
    {
        match outcome {
            BuildOutcome::ParseFailed { report } => Err(report),
            BuildOutcome::CompileFailed { report } => Err(report),
            BuildOutcome::Compiled { units, report: _ } => {
                let mut names: Vec<String> = Vec::new();
                let mut code: Vec<Vec<u8>> = Vec::new();
                let mut i: usize = 0;
                while i < units.len()
                    invariant
                        i <= units@.len(),
                        names@ == units@.map_values(|u: CompiledUnit| u.name).take(i as int),
                        code@.len() == i,
                        forall|j: int| 0 <= j < i ==> (#[trigger] code@[j])@ == units@[j].bytes@,
                    decreases units@.len() - i,
                {
                    names.push(units[i].name.clone());
                    code.push(units[i].bytes.clone());
                    assert(units@.map_values(|u: CompiledUnit| u.name).take(i + 1) == units@.map_values(
                        |u: CompiledUnit| u.name,
                    ).take(i as int).push(units@[i as int].name));
                    i = i + 1;
                }
                assert(names@ == units@.map_values(|u: CompiledUnit| u.name));
                let meta = self.package_metadata(&names);
                proof {
                    reveal_strlit("MoveStdlib");
                    lemma_utf8_len_bound(meta.deps@[0].package_name@);
                    assert(encode_utf8(meta.source_digest@).len() == 0);
                    assert forall|k: int| 0 <= k < meta.modules@.len() implies (
                    #[trigger] meta.modules@[k]).fits() by {
                        assert(meta.modules@[k].name == units@[k].name);
                    }
                    assert(meta.deps@[0].fits());
                }
                let bytes = encode_package_metadata(&meta).unwrap();
                Ok((bytes, code))
            },
        }
    }
}

/// Reply to a build check.
pub struct CheckBuildResponse {
    pub response: String,
}

/// Reply to a build: the metadata and module bytecode on success, empty on
/// failure, with the diagnostics as the response.
pub struct BuildResponse {
    pub metadata: Vec<u8>,
    pub units: Vec<Vec<u8>>,
    pub response: String,
}

impl CheckBuildResponse {
    /// The reply to a build check: its diagnostics. A check that did not
    /// succeed is refused.
    pub fn from_check(result: Result<String, ()>) -> (r: CheckBuildResponse)
        requires
            result is Ok,
        ensures
            result matches Ok(s) ==> r.response == s,
    {
        CheckBuildResponse { response: result.unwrap() }
    }
}

impl BuildResponse {
    /// `r` is the reply to the build result: metadata, bytecode and an empty
    /// response on success; empty metadata and bytecode with the diagnostics
    /// on failure.
    pub open spec fn answers(result: Result<(Vec<u8>, Vec<Vec<u8>>), String>, r: BuildResponse) -> bool {
        match result {
            Ok((m, u)) => r.metadata == m && r.units == u && r.response@ == Seq::<char>::empty(),
            Err(s) => r.metadata@ == Seq::<u8>::empty() && r.units@ == Seq::<Vec<u8>>::empty()
                && r.response == s,
        }
    }

    /// The reply to a build: metadata, bytecode and an empty response on
    /// success; empty metadata and bytecode with the diagnostics on failure.
    pub fn from_build(result: Result<(Vec<u8>, Vec<Vec<u8>>), String>) -> (r: BuildResponse)
        ensures
            BuildResponse::answers(result, r),
    {
        match result {
            Ok((metadata, units)) => BuildResponse { metadata, units, response: String::new() },
            Err(s) => BuildResponse { metadata: Vec::new(), units: Vec::new(), response: s },
        }
    }
}


/// The map from file name to content that a sequence of files describes:
/// a later file overrides an earlier one with the same name.
pub open spec fn names_view(fs: Seq<SourceFile>) -> Map<Seq<char>, Seq<char>>
    decreases fs.len(),
{
    if fs.len() == 0 {
        Map::empty()
    } else {
        names_view(fs.drop_last()).insert(fs.last().name@, fs.last().content@)
    }
}

/// The files of a package describe the same name-to-content map as its
/// sources, and carry its address map and the given dependency flag.
pub proof fn lemma_package_files(p: IndexedPackage, is_dependency: bool)
    ensures
        names_view(package_files(p, is_dependency)) == p.source@,
        package_files(p, is_dependency).len() == p.source.entries().len(),
        forall|j: int|
            0 <= j < package_files(p, is_dependency).len() ==> (#[trigger] package_files(
                p,
                is_dependency,
            )[j]).named_address_map == p.named_address_map && package_files(
                p,
                is_dependency,
            )[j].is_dependency == is_dependency,
{
    lemma_names_view_map(p.source.entries(), p.named_address_map, is_dependency);
    p.source.lemma_view_is_entries();
}

/// `names_view` of the files made from a sequence of pairs is the map of the
/// pairs.
proof fn lemma_names_view_map(v: Seq<(String, String)>, idx: usize, is_dependency: bool)
    ensures
        names_view(
            v.map_values(
                |e: (String, String)|
                    SourceFile { name: e.0, content: e.1, named_address_map: idx, is_dependency },
            ),
        ) == assoc_view(v),
    decreases v.len(),
{
    let fs = v.map_values(
        |e: (String, String)|
            SourceFile { name: e.0, content: e.1, named_address_map: idx, is_dependency },
    );
    if v.len() > 0 {
        lemma_names_view_map(v.drop_last(), idx, is_dependency);
        assert(fs.drop_last() == v.drop_last().map_values(
            |e: (String, String)|
                SourceFile { name: e.0, content: e.1, named_address_map: idx, is_dependency },
        ));
    }
}

/// Every file of a sequence of dependencies is marked as a dependency file,
/// and carries address map zero when every dependency does.
proof fn lemma_deps_files(ds: Seq<IndexedPackage>)
    ensures
        forall|j: int|
            0 <= j < deps_files(ds).len() ==> (#[trigger] deps_files(ds)[j]).is_dependency,
        (forall|i: int| 0 <= i < ds.len() ==> (#[trigger] ds[i]).named_address_map == 0)
            ==> forall|j: int|
            0 <= j < deps_files(ds).len() ==> (#[trigger] deps_files(ds)[j]).named_address_map
                == 0,
    decreases ds.len(),
{
    if ds.len() > 0 {
        lemma_deps_files(ds.drop_last());
        lemma_package_files(ds.last(), true);
        let a = deps_files(ds.drop_last());
        let b = package_files(ds.last(), true);
        assert forall|j: int| 0 <= j < deps_files(ds).len() implies (#[trigger] deps_files(
            ds,
        )[j]).is_dependency by {
            if j < a.len() {
                assert(deps_files(ds)[j] == a[j]);
            } else {
                assert(deps_files(ds)[j] == b[j - a.len()]);
            }
        }
        if forall|i: int| 0 <= i < ds.len() ==> (#[trigger] ds[i]).named_address_map == 0 {
            assert forall|i: int|
                0 <= i < ds.drop_last().len() implies (#[trigger] ds.drop_last()[i]).named_address_map
                == 0 by {
                assert(ds.drop_last()[i] == ds[i]);
            }
            assert(ds.last() == ds[ds.len() - 1]);
            assert forall|j: int| 0 <= j < deps_files(ds).len() implies (#[trigger] deps_files(
                ds,
            )[j]).named_address_map == 0 by {
                if j < a.len() {
                    assert(deps_files(ds)[j] == a[j]);
                } else {
                    assert(deps_files(ds)[j] == b[j - a.len()]);
                }
            }
        }
    }
}

/// For the compiler input made from a build request, the package's own files
/// come first, are not marked as dependency files and map each requested
/// file name to its requested content; every later file is a dependency file;
/// and every file, the dependencies' included, is compiled against the
/// package's address map, map zero.
pub proof fn law_request_files(m: Module, c: Compiler)
    requires
        m.indexes(c),
    ensures
        names_view(c.files().take(c.targets.source.entries().len() as int)) == zip_view(
            m.target_symbols@,
            m.target_source@,
        ),
        forall|j: int|
            0 <= j < c.files().len() ==> (#[trigger] c.files()[j]).is_dependency == (j
                >= c.targets.source.entries().len()),
        forall|j: int| 0 <= j < c.files().len() ==> (#[trigger] c.files()[j]).named_address_map == 0,
{
    let own = package_files(c.targets, false);
    let rest = deps_files(c.deps@);
    lemma_package_files(c.targets, false);
    lemma_deps_files(c.deps@);
    assert(c.files().take(c.targets.source.entries().len() as int) == own);
    assert forall|j: int| 0 <= j < c.files().len() implies (#[trigger] c.files()[j]).is_dependency
        == (j >= c.targets.source.entries().len()) && c.files()[j].named_address_map == 0 by {
        if j < own.len() {
            assert(c.files()[j] == own[j]);
        } else {
            assert(c.files()[j] == rest[j - own.len()]);
        }
    }
}

/// For any sequence of files, the table that diagnostics are rendered
/// against has one entry per distinct content, and gives each content the
/// name of the last file that has it.
pub proof fn law_files_table(fs: Seq<SourceFile>)
    ensures
        forall|i: int| 0 <= i < fs.len() ==> files_table_of(fs).contains_key((#[trigger] fs[i]).content@),
        forall|k: Seq<char>|
            files_table_of(fs).contains_key(k) ==> exists|i: int|
                0 <= i < fs.len() && (#[trigger] fs[i]).content@ == k && files_table_of(fs)[k]
                    == fs[i].name@ && forall|j: int| i < j < fs.len() ==> (#[trigger] fs[j]).content@ != k,
    decreases fs.len(),
{
    if fs.len() > 0 {
        let d = fs.drop_last();
        law_files_table(d);
        let n = fs.len() - 1;
        assert forall|i: int| 0 <= i < fs.len() implies files_table_of(fs).contains_key(
            (#[trigger] fs[i]).content@,
        ) by {
            if i < n {
                assert(d[i] == fs[i]);
            }
        }
        assert forall|k: Seq<char>| files_table_of(fs).contains_key(k) implies exists|i: int|
            0 <= i < fs.len() && (#[trigger] fs[i]).content@ == k && files_table_of(fs)[k]
                == fs[i].name@ && forall|j: int| i < j < fs.len() ==> (#[trigger] fs[j]).content@ != k by {
            if k == fs[n].content@ {
                assert(fs[n].content@ == k);
            } else {
                assert(files_table_of(d).contains_key(k));
                let i = choose|i: int|
                    0 <= i < d.len() && (#[trigger] d[i]).content@ == k && files_table_of(d)[k]
                        == d[i].name@ && forall|j: int| i < j < d.len() ==> (#[trigger] d[j]).content@ != k;
                assert(fs[i] == d[i]);
                assert forall|j: int| i < j < fs.len() implies (#[trigger] fs[j]).content@ != k by {
                    if j < n {
                        assert(fs[j] == d[j]);
                    }
                }
            }
        }
    }
}


/// A ULEB128 encoding has at least one byte.
proof fn lemma_uleb128_nonempty(n: nat)
    ensures
        uleb128(n).len() >= 1,
{
}

/// Sequences of module metadata whose elements encode alike encode alike.
proof fn lemma_modules_body_eq(a: Seq<ModuleMetadata>, b: Seq<ModuleMetadata>)
    requires
        a.len() == b.len(),
        forall|i: int| 0 <= i < a.len() ==> (#[trigger] a[i]).bcs() == b[i].bcs(),
    ensures
        modules_body(a) == modules_body(b),
    decreases a.len(),
{
    if a.len() > 0 {
        assert forall|i: int| 0 <= i < a.drop_last().len() implies (
        #[trigger] a.drop_last()[i]).bcs() == b.drop_last()[i].bcs() by {
            assert(a.drop_last()[i] == a[i] && b.drop_last()[i] == b[i]);
        }
        lemma_modules_body_eq(a.drop_last(), b.drop_last());
        assert(a.last().bcs() == b.last().bcs()) by {
            assert(a[a.len() - 1].bcs() == b[a.len() - 1].bcs());
        }
    }
}

/// Sequences of dependencies whose elements encode alike encode alike.
proof fn lemma_deps_body_eq(a: Seq<PackageDep>, b: Seq<PackageDep>)
    requires
        a.len() == b.len(),
        forall|i: int| 0 <= i < a.len() ==> (#[trigger] a[i]).bcs() == b[i].bcs(),
    ensures
        deps_body(a) == deps_body(b),
    decreases a.len(),
{
    if a.len() > 0 {
        assert forall|i: int| 0 <= i < a.drop_last().len() implies (
        #[trigger] a.drop_last()[i]).bcs() == b.drop_last()[i].bcs() by {
            assert(a.drop_last()[i] == a[i] && b.drop_last()[i] == b[i]);
        }
        lemma_deps_body_eq(a.drop_last(), b.drop_last());
        assert(a.last().bcs() == b.last().bcs()) by {
            assert(a[a.len() - 1].bcs() == b[a.len() - 1].bcs());
        }
    }
}

/// The metadata of a package for given module names determines its bytes:
/// any two metadata values that [`Compiler::metadata_spec`] admits for the
/// same names encode to the same bytes.
pub proof fn law_metadata_bytes_determined(
    c: Compiler,
    m1: PackageMetadata,
    m2: PackageMetadata,
    names: Seq<String>,
)
    requires
        c.metadata_spec(m1, names),
        c.metadata_spec(m2, names),
    ensures
        m1.bcs() == m2.bcs(),
{
    assert forall|i: int| 0 <= i < m1.modules@.len() implies (#[trigger] m1.modules@[i]).bcs()
        == m2.modules@[i].bcs() by {
        assert(m1.modules@[i].name == names[i] && m2.modules@[i].name == names[i]);
    }
    lemma_modules_body_eq(m1.modules@, m2.modules@);
    assert forall|i: int| 0 <= i < m1.deps@.len() implies (#[trigger] m1.deps@[i]).bcs()
        == m2.deps@[i].bcs() by {
        assert(i == 0);
    }
    lemma_deps_body_eq(m1.deps@, m2.deps@);
}

/// Building one package twice from the same compiler outcome gives the same
/// result: the same diagnostics on failure, or the same metadata bytes and
/// the same bytecode, module by module, on success.
pub proof fn law_build_deterministic(
    c: Compiler,
    outcome: BuildOutcome,
    r1: Result<(Vec<u8>, Vec<Vec<u8>>), String>,
    r2: Result<(Vec<u8>, Vec<Vec<u8>>), String>,
)
    requires
        c.builds(outcome, r1),
        c.builds(outcome, r2),
    ensures
        r1 is Ok <==> r2 is Ok,
        r1 is Err ==> r1 == r2,
        r1 matches Ok((meta1, code1)) ==> (r2 matches Ok((meta2, code2)) && meta1@ == meta2@
            && code1@.len() == code2@.len() && forall|i: int|
            0 <= i < code1@.len() ==> (#[trigger] code1@[i])@ == code2@[i]@),
{
    if let BuildOutcome::Compiled { units, .. } = outcome {
        let names = units@.map_values(|u: CompiledUnit| u.name);
        if let Ok((meta1, code1)) = r1 {
            if let Ok((meta2, code2)) = r2 {
                let m1 = choose|m: PackageMetadata|
                    c.metadata_spec(m, names) && meta1@ == m.bcs() && code1@.len() == units@.len()
                        && forall|i: int|
                        0 <= i < units@.len() ==> (#[trigger] code1@[i])@ == units@[i].bytes@;
                let m2 = choose|m: PackageMetadata|
                    c.metadata_spec(m, names) && meta2@ == m.bcs() && code2@.len() == units@.len()
                        && forall|i: int|
                        0 <= i < units@.len() ==> (#[trigger] code2@[i])@ == units@[i].bytes@;
                law_metadata_bytes_determined(c, m1, m2, names);
                assert forall|i: int| 0 <= i < code1@.len() implies (#[trigger] code1@[i])@
                    == code2@[i]@ by {
                    assert(code1@[i]@ == units@[i].bytes@);
                    assert(code2@[i]@ == units@[i].bytes@);
                }
            }
        }
    }
}

/// The reply to a build whose failures carry non-empty diagnostics: its
/// response is empty exactly when the build succeeded, which is exactly when
/// its metadata is non-empty; a failed build's reply has no metadata, no
/// bytecode and a non-empty response.
pub proof fn law_build_response(
    c: Compiler,
    outcome: BuildOutcome,
    result: Result<(Vec<u8>, Vec<Vec<u8>>), String>,
    resp: BuildResponse,
)
    requires
        c.builds(outcome, result),
        BuildResponse::answers(result, resp),
        !(outcome is Compiled) ==> outcome.report()@.len() > 0,
    ensures
        (resp.response@.len() == 0) <==> (outcome is Compiled),
        (outcome is Compiled) <==> resp.metadata@.len() > 0,
        !(outcome is Compiled) ==> resp.metadata@.len() == 0 && resp.units@.len() == 0
            && resp.response@.len() > 0,
{
    if let BuildOutcome::Compiled { units, .. } = outcome {
        let names = units@.map_values(|u: CompiledUnit| u.name);
        if let Ok((meta, code)) = result {
            let m = choose|m: PackageMetadata|
                c.metadata_spec(m, names) && meta@ == m.bcs() && code@.len() == units@.len()
                    && forall|i: int|
                    0 <= i < units@.len() ==> (#[trigger] code@[i])@ == units@[i].bytes@;
            lemma_uleb128_nonempty(encode_utf8(m.name@).len());
            assert(resp.metadata@ == meta@);
        }
    }
}

} // verus!
