//! Package registries: resolving versions, naming downloads, checking archive
//! integrity, and the steps of an inspect or compare operation.
use vstd::prelude::*;
use vstd::string::*;
use crate::digests::{digest_matches, sha256, sha256_of};
use crate::text::same_text;
use crate::workspace::{is_workspace_name, workspace_name};

verus! {

/// One published version of a package, as the registry's index lists it.
#[derive(Debug)]
pub struct VersionRecord {
    pub version: String,
    pub checksum: [u8; 32],
    pub yanked: bool,
}

/// A package and its published versions, in the index's order.
#[derive(Debug)]
pub struct PackageRecord {
    pub name: String,
    pub versions: Vec<VersionRecord>,
}

/// Why an operation failed.
#[derive(Debug)]
pub enum RegistryError {
    /// The registry name is not known.
    UnknownRegistry,
    /// The package index could not be read.
    Index(String),
    /// The package, or one of its versions, does not exist.
    NotFound(String),
    /// A downloaded archive does not have its published digest.
    ChecksumMismatch(String),
    /// A download failed.
    Network(String),
    /// An archive could not be unpacked, or lacks its root directory.
    ArchiveLayout(String),
    /// The differencing tool could not be run or its output read.
    DiffTool(String),
    /// The workspace could not be created or removed.
    Workspace(String),
}

/// `Crate '<pkg>' not found`
pub open spec fn crate_not_found(pkg: Seq<char>) -> Seq<char> {
    "Crate '"@ + pkg + "' not found"@
}

/// The link to one version's page.
pub open spec fn version_link(name: Seq<char>, v: Seq<char>) -> Seq<char> {
    "<a href=\"/crates/"@ + name + "/"@ + v + "\">"@ + v + "</a>"@
}

/// The links to all versions, one per line.
pub open spec fn version_links(name: Seq<char>, vs: Seq<VersionRecord>) -> Seq<char>
    decreases vs.len(),
{
    if vs.len() == 0 {
        Seq::empty()
    } else if vs.len() == 1 {
        version_link(name, vs[0].version@)
    } else {
        version_links(name, vs.drop_last()) + "\n"@ + version_link(name, vs.last().version@)
    }
}

/// The message for a missing version, listing the versions that exist.
pub open spec fn version_not_found(name: Seq<char>, vs: Seq<VersionRecord>, v: Seq<char>) -> Seq<char> {
    "Version '"@ + v + "' not found\nAvailable versions:\n"@ + version_links(name, vs)
}

/// `Crate <pkg> v<version> checksum mismatch`
pub open spec fn checksum_mismatch(pkg: Seq<char>, v: Seq<char>) -> Seq<char> {
    "Crate "@ + pkg + " v"@ + v + " checksum mismatch"@
}

/// Some record of `vs` has version `v`.
pub open spec fn has_version(vs: Seq<VersionRecord>, v: Seq<char>) -> bool {
    exists|i: int| 0 <= i < vs.len() && (#[trigger] vs[i]).version@ == v
}

/// `i` is the first record of `vs` with version `v`.
pub open spec fn is_first(vs: Seq<VersionRecord>, v: Seq<char>, i: int) -> bool {
    &&& 0 <= i < vs.len()
    &&& vs[i].version@ == v
    &&& forall|j: int| 0 <= j < i ==> (#[trigger] vs[j]).version@ != v
}

/// The position of the first record of `vs` with version `v`.
pub open spec fn first_index(vs: Seq<VersionRecord>, v: Seq<char>) -> int {
    choose|i: int| is_first(vs, v, i)
}

proof fn lemma_first_index(vs: Seq<VersionRecord>, v: Seq<char>, i: int)
    requires
        is_first(vs, v, i),
    ensures
        first_index(vs, v) == i,
{
    let c = first_index(vs, v);
    assert(is_first(vs, v, c));
    if c < i {
        assert(vs[c].version@ != v);
    } else if c > i {
        assert(vs[i].version@ != v);
    }
}

/// The download address of a crate archive.
pub open spec fn crate_download_url(pkg: Seq<char>, v: Seq<char>) -> Seq<char> {
    "https://crates.io/api/v1/crates/"@ + pkg + "/"@ + v + "/download"@
}

/// The directory at the root of a crate archive: `<pkg>-<version>`.
pub open spec fn crate_archive_root(pkg: Seq<char>, v: Seq<char>) -> Seq<char> {
    pkg + "-"@ + v
}

/// The registry of Rust crates.
#[derive(Debug)]
pub struct CratesRegistry {}

/// Looks up a registry by name; `crates` is the one known.
pub fn get_registry(registry: &str) -> (r: Result<CratesRegistry, RegistryError>)
    ensures
        r is Ok <==> registry@ == "crates"@,
        r is Err ==> r->Err_0 is UnknownRegistry,
{
    if same_text(registry, "crates") {
        Ok(CratesRegistry {})
    } else {
        Err(RegistryError::UnknownRegistry)
    }
}

impl CratesRegistry {
    /// The outcome of looking a package up: found, or `Crate '<pkg>' not found`.
    pub fn find_crate(pkg: &str, found: Option<PackageRecord>) -> (r: Result<PackageRecord, RegistryError>)
        ensures
            found is Some ==> r == Ok::<PackageRecord, RegistryError>(found->Some_0),
            found is None ==> r is Err && r->Err_0 is NotFound && r->Err_0->NotFound_0@ == crate_not_found(pkg@),
    {
        match found {
            Some(p) => Ok(p),
            None => {
                let mut m = String::from_str("Crate '");
                m.append(pkg);
                m.append("' not found");
                Err(RegistryError::NotFound(m))
            },
        }
    }

    /// The links to all versions of a package, one per line.
    fn links(package: &PackageRecord) -> (r: String)
        ensures
            r@ == version_links(package.name@, package.versions@),
    {
        let vs = &package.versions;
        let mut s = String::new();
        let mut i: usize = 0;
        while i < vs.len()
            invariant
                vs == &package.versions,
                i <= vs@.len(),
                s@ == version_links(package.name@, vs@.take(i as int)),
            decreases vs@.len() - i,
        {
            let ghost before = s@;
            assert(vs@.take(i + 1).drop_last() =~= vs@.take(i as int));
            if i > 0 {
                s.append("\n");
            }
            s.append("<a href=\"/crates/");
            s.append(package.name.as_str());
            s.append("/");
            s.append(vs[i].version.as_str());
            s.append("\">");
            s.append(vs[i].version.as_str());
            s.append("</a>");
            assert(s@ =~= version_links(package.name@, vs@.take(i + 1)));
            i = i + 1;
        }
        assert(vs@.take(vs@.len() as int) =~= vs@);
        s
    }

    /// The first record of the package with the given version; when there is
    /// none, a not-found error that lists the versions that exist.
    pub fn find_version<'a>(package: &'a PackageRecord, version: &str) -> (r: Result<&'a VersionRecord, RegistryError>)
        ensures
            r is Ok <==> has_version(package.versions@, version@),
            r is Ok ==> exists|i: int| is_first(package.versions@, version@, i) && *r->Ok_0 == package.versions@[i],
            r is Err ==> r->Err_0 is NotFound && r->Err_0->NotFound_0@ == version_not_found(
                package.name@,
                package.versions@,
                version@,
            ),
    {
        let vs = &package.versions;
        let mut i: usize = 0;
        while i < vs.len()
            invariant
                vs == &package.versions,
                i <= vs@.len(),
                forall|j: int| 0 <= j < i ==> (#[trigger] vs@[j]).version@ != version@,
            decreases vs@.len() - i,
        {
            if same_text(vs[i].version.as_str(), version) {
                assert(is_first(vs@, version@, i as int));
                return Ok(&vs[i]);
            }
            i = i + 1;
        }
        let mut m = String::from_str("Version '");
        m.append(version);
        m.append("' not found\nAvailable versions:\n");
        m.append(Self::links(package).as_str());
        Err(RegistryError::NotFound(m))
    }

    /// The address from which an archive of `pkg` at `version` is downloaded.
    pub fn download_url(pkg: &str, version: &str) -> (r: String)
        ensures
            r@ == crate_download_url(pkg@, version@),
    {
        let mut s = String::from_str("https://crates.io/api/v1/crates/");
        s.append(pkg);
        s.append("/");
        s.append(version);
        s.append("/download");
        s
    }

    /// The directory at the root of the archive of `pkg` at `version`.
    pub fn archive_root(pkg: &str, version: &str) -> (r: String)
        ensures
            r@ == crate_archive_root(pkg@, version@),
    {
        let mut s = String::from_str(pkg);
        s.append("-");
        s.append(version);
        s
    }
}

/// What is needed to fetch one version into one slot of the workspace.
#[derive(Debug)]
pub struct FetchOrder {
    pub pkg: String,
    pub version: String,
    /// Where the archive is downloaded from.
    pub url: String,
    /// The directory at the archive's root, renamed to the slot once unpacked.
    pub root: String,
    /// The workspace slot, `a` (old side) or `b` (new side).
    pub slot: String,
    /// The digest the index publishes for the archive.
    pub checksum: [u8; 32],
}

/// The verdict on an archive whose SHA-256 digest is `digest`: accepted when
/// it equals the published one byte for byte, else a checksum mismatch.
pub fn check_digest(order: &FetchOrder, digest: &[u8; 32]) -> (r: Result<(), RegistryError>)
    ensures
        r is Ok <==> digest@ == order.checksum@,
        r is Err ==> r->Err_0 is ChecksumMismatch && r->Err_0->ChecksumMismatch_0@ == checksum_mismatch(
            order.pkg@,
            order.version@,
        ),
{
    if digest_matches(digest, &order.checksum) {
        Ok(())
    } else {
        let mut m = String::from_str("Crate ");
        m.append(order.pkg.as_str());
        m.append(" v");
        m.append(order.version.as_str());
        m.append(" checksum mismatch");
        Err(RegistryError::ChecksumMismatch(m))
    }
}

/// Checks a downloaded archive against the digest the index publishes for it;
/// an archive is to be unpacked only after it passed.
pub fn check_archive(order: &FetchOrder, bytes: &[u8]) -> (r: Result<(), RegistryError>)
    ensures
        r is Ok <==> sha256_of(bytes@) == order.checksum@,
        r is Err ==> r->Err_0 is ChecksumMismatch && r->Err_0->ChecksumMismatch_0@ == checksum_mismatch(
            order.pkg@,
            order.version@,
        ),
{
    let digest = sha256(bytes);
    check_digest(order, &digest)
}

/// Where an inspect or compare operation stands.
#[derive(PartialEq, Eq, Structural, Clone, Copy, Debug)]
pub enum Phase {
    /// Waiting for the package's index entry.
    LookingUp,
    /// Waiting for the workspace to be created.
    Allocating,
    /// Waiting for the archives to be fetched into their slots.
    Fetching,
    /// Waiting for the differencing tool's output.
    Diffing,
    /// Waiting for the workspace to be removed.
    Releasing,
    /// Finished; nothing is left to do.
    Done,
}

/// The workspace may exist on disk: from the request to create it until it
/// has been removed.
pub open spec fn holds_workspace(p: Phase) -> bool {
    p == Phase::Allocating || p == Phase::Fetching || p == Phase::Diffing || p == Phase::Releasing
}

/// The result of a successful operation: the raw diff and, per requested
/// version, whether it is yanked.
#[derive(Debug)]
pub struct Outcome {
    pub diff: String,
    pub yanked: Vec<bool>,
}

/// What the caller is to do next.
#[derive(Debug)]
pub enum Action {
    /// Read the index entry of the package.
    LookUp(String),
    /// Create the workspace directory of this name, with its slot `a` empty
    /// when the flag is set (a single version is inspected against nothing).
    Allocate(String, bool),
    /// Fetch all these archives, concurrently, each into its slot.
    Fetch(Vec<FetchOrder>),
    /// Run the differencing tool over slots `a` and `b`.
    Diff,
    /// Remove the workspace.
    Release,
    /// The operation is over, with this result.
    Finish(Result<Outcome, RegistryError>),
}

/// One inspect or compare operation: the decisions between its outside steps.
#[derive(Debug)]
pub struct Operation {
    pub pkg: String,
    /// The versions asked for: one to inspect, two to compare.
    pub requested: Vec<String>,
    pub phase: Phase,
    /// The fetches to make once the workspace exists.
    pub orders: Vec<FetchOrder>,
    /// Per requested version, whether it is yanked.
    pub yanked: Vec<bool>,
    /// The result to report once the workspace has been removed.
    pub result: Option<Result<Outcome, RegistryError>>,
}

/// The slot of the `k`-th of `n` requested versions: a single version goes
/// to `b`, against an empty `a`; of two, the first goes to `a`.
pub open spec fn slot_of(n: int, k: int) -> Seq<char> {
    if n == 1 || k == 1 {
        "b"@
    } else {
        "a"@
    }
}

/// `o` fetches version `v` of `pkg` into slot `slot`, expecting the digest of record `rec`.
pub open spec fn order_ok(o: FetchOrder, pkg: Seq<char>, v: Seq<char>, rec: VersionRecord, slot: Seq<char>) -> bool {
    &&& o.pkg@ == pkg
    &&& o.version@ == v
    &&& o.url@ == crate_download_url(pkg, v)
    &&& o.root@ == crate_archive_root(pkg, v)
    &&& o.slot@ == slot
    &&& o.checksum@ == rec.checksum@
}

impl Operation {
    /// The operation's fields fit its phase.
    pub open spec fn wf(&self) -> bool {
        &&& 1 <= self.requested@.len() <= 2
        &&& (self.phase == Phase::Allocating ==> self.orders@.len() == self.requested@.len())
        &&& (self.phase == Phase::Allocating || self.phase == Phase::Fetching || self.phase == Phase::Diffing
            ==> self.yanked@.len() == self.requested@.len())
        &&& (self.phase == Phase::Releasing <==> self.result is Some)
    }

    /// A fresh operation on `pkg` for the given versions, and its first action.
    pub open spec fn started(&self, a: Action, pkg: Seq<char>, versions: Seq<Seq<char>>) -> bool {
        &&& self.wf()
        &&& self.phase == Phase::LookingUp
        &&& self.pkg@ == pkg
        &&& self.requested@.len() == versions.len()
        &&& forall|k: int| 0 <= k < versions.len() ==> (#[trigger] self.requested@[k])@ == versions[k]
        &&& a is LookUp && a->LookUp_0@ == pkg
    }

    fn start(pkg: &str, requested: Vec<String>) -> (r: (Operation, Action))
        requires
            1 <= requested@.len() <= 2,
        ensures
            r.0.wf(),
            r.0.phase == Phase::LookingUp,
            r.0.pkg@ == pkg@,
            r.0.requested@ == requested@,
            r.1 is LookUp && r.1->LookUp_0@ == pkg@,
    {
        let op = Operation {
            pkg: String::from_str(pkg),
            requested,
            phase: Phase::LookingUp,
            orders: Vec::new(),
            yanked: Vec::new(),
            result: None,
        };
        (op, Action::LookUp(String::from_str(pkg)))
    }
}

/// `j` is the first requested version that the package lacks.
pub open spec fn first_missing(vs: Seq<VersionRecord>, req: Seq<String>, j: int) -> bool {
    &&& 0 <= j < req.len()
    &&& !has_version(vs, req[j]@)
    &&& forall|k: int| 0 <= k < j ==> has_version(vs, (#[trigger] req[k])@)
}

/// The finishing action with this error.
pub open spec fn fails_with(a: Action, e: RegistryError) -> bool {
    a is Finish && a->Finish_0 == Err::<Outcome, RegistryError>(e)
}

/// Looking the package up: an unreadable index or a missing package or
/// version ends the operation before any workspace exists; otherwise the
/// workspace is requested and one fetch per version is prepared.
pub open spec fn lookup_step(
    before: Operation,
    found: Result<Option<PackageRecord>, String>,
    after: Operation,
    a: Action,
) -> bool {
    let n = before.requested@.len();
    &&& after.pkg == before.pkg
    &&& after.requested == before.requested
    &&& after.result == before.result
    &&& (found is Err ==> after.phase == Phase::Done && fails_with(a, RegistryError::Index(found->Err_0)))
    &&& (found is Ok && found->Ok_0 is None ==> after.phase == Phase::Done && a is Finish && a->Finish_0 is Err
        && a->Finish_0->Err_0 is NotFound && a->Finish_0->Err_0->NotFound_0@ == crate_not_found(before.pkg@))
    &&& (found is Ok && found->Ok_0 is Some ==> {
        let p = found->Ok_0->Some_0;
        &&& forall|j: int| first_missing(p.versions@, before.requested@, j) ==> {
            &&& after.phase == Phase::Done
            &&& a is Finish && a->Finish_0 is Err && a->Finish_0->Err_0 is NotFound
            &&& a->Finish_0->Err_0->NotFound_0@ == version_not_found(
                p.name@,
                p.versions@,
                before.requested@[j]@,
            )
        }
        &&& (forall|k: int| 0 <= k < n ==> has_version(p.versions@, (#[trigger] before.requested@[k])@)) ==> {
            &&& after.phase == Phase::Allocating
            &&& a is Allocate && is_workspace_name(a->Allocate_0@) && a->Allocate_1 == (n == 1)
            &&& after.orders@.len() == n
            &&& after.yanked@.len() == n
            &&& forall|k: int| 0 <= k < n ==> {
                let rec = p.versions@[first_index(p.versions@, before.requested@[k]@)];
                &&& order_ok(#[trigger] after.orders@[k], before.pkg@, before.requested@[k]@, rec, slot_of(n as int, k))
                &&& after.yanked@[k] == rec.yanked
            }
        }
    })
}

/// Creating the workspace: once it exists the archives are fetched; if that
/// failed, whatever was created is removed before the failure is reported.
pub open spec fn allocated_step(before: Operation, result: Result<(), String>, after: Operation, a: Action) -> bool {
    &&& after.pkg == before.pkg
    &&& after.requested == before.requested
    &&& after.yanked == before.yanked
    &&& (result is Ok ==> after.phase == Phase::Fetching && a is Fetch && a->Fetch_0@ == before.orders@)
    &&& (result is Err ==> after.phase == Phase::Releasing && a is Release
        && after.result == Some(Err::<Outcome, RegistryError>(RegistryError::Workspace(result->Err_0))))
}

/// Fetching: once every archive is in its slot the trees are diffed; a
/// failed fetch has the workspace removed before the failure is reported.
pub open spec fn fetched_step(before: Operation, result: Result<(), RegistryError>, after: Operation, a: Action) -> bool {
    &&& after.pkg == before.pkg
    &&& after.requested == before.requested
    &&& after.yanked == before.yanked
    &&& (result is Ok ==> after.phase == Phase::Diffing && a is Diff)
    &&& (result is Err ==> after.phase == Phase::Releasing && a is Release
        && after.result == Some(Err::<Outcome, RegistryError>(result->Err_0)))
}

/// Diffing: the diff, or the tool's failure, is kept while the workspace is removed.
pub open spec fn diffed_step(before: Operation, result: Result<String, String>, after: Operation, a: Action) -> bool {
    &&& after.pkg == before.pkg
    &&& after.requested == before.requested
    &&& after.phase == Phase::Releasing
    &&& a is Release
    &&& (result is Ok ==> after.result is Some && after.result->Some_0 is Ok
        && after.result->Some_0->Ok_0.diff == result->Ok_0
        && after.result->Some_0->Ok_0.yanked@ == before.yanked@)
    &&& (result is Err ==> after.result == Some(Err::<Outcome, RegistryError>(RegistryError::DiffTool(result->Err_0))))
}

/// Removing the workspace: the kept result is reported; a removal that
/// failed turns a success into a workspace error and leaves a failure as it was.
pub open spec fn released_step(before: Operation, result: Result<(), String>, after: Operation, a: Action) -> bool {
    let kept = before.result->Some_0;
    &&& after.pkg == before.pkg
    &&& after.requested == before.requested
    &&& after.phase == Phase::Done
    &&& after.result is None
    &&& a is Finish
    &&& (result is Ok || kept is Err ==> a->Finish_0 == kept)
    &&& (result is Err && kept is Ok ==> fails_with(a, RegistryError::Workspace(result->Err_0)))
}

impl Operation {
    /// Takes the package's index entry (`Ok(None)`: no such package).
    pub fn on_lookup(&mut self, found: Result<Option<PackageRecord>, String>) -> (a: Action)
        requires
            old(self).wf(),
            old(self).phase == Phase::LookingUp,
        ensures
            final(self).wf(),
            lookup_step(*old(self), found, *final(self), a),
    {
        let ghost found0 = found;
        match found {
            Err(m) => {
                self.phase = Phase::Done;
                Action::Finish(Err(RegistryError::Index(m)))
            },
            Ok(entry) => match CratesRegistry::find_crate(self.pkg.as_str(), entry) {
                Err(e) => {
                    self.phase = Phase::Done;
                    Action::Finish(Err(e))
                },
                Ok(p) => {
                    let n = self.requested.len();
                    let mut orders: Vec<FetchOrder> = Vec::new();
                    let mut yanked: Vec<bool> = Vec::new();
                    let mut k: usize = 0;
                    while k < n
                        invariant
                            old(self).wf(),
                            old(self).phase == Phase::LookingUp,
                            n == self.requested@.len(),
                            1 <= n <= 2,
                            self.phase == Phase::LookingUp,
                            self.pkg == old(self).pkg,
                            self.requested == old(self).requested,
                            self.result == old(self).result,
                            found0 == Ok::<Option<PackageRecord>, String>(Some(p)),
                            found0 == found,
                            k <= n,
                            orders@.len() == k,
                            yanked@.len() == k,
                            forall|j: int| 0 <= j < k ==> has_version(p.versions@, (#[trigger] self.requested@[j])@),
                            forall|j: int| 0 <= j < k ==> {
                                let rec = p.versions@[first_index(p.versions@, self.requested@[j]@)];
                                &&& order_ok(#[trigger] orders@[j], self.pkg@, self.requested@[j]@, rec, slot_of(n as int, j))
                                &&& yanked@[j] == rec.yanked
                            },
                        decreases n - k,
                    {
                        match CratesRegistry::find_version(&p, self.requested[k].as_str()) {
                            Err(e) => {
                                assert(first_missing(p.versions@, self.requested@, k as int));
                                assert forall|j: int| first_missing(p.versions@, self.requested@, j) implies j == k by {
                                    if j < k {
                                        assert(has_version(p.versions@, self.requested@[j]@));
                                    } else if j > k {
                                        assert(has_version(p.versions@, self.requested@[k as int]@));
                                    }
                                }
                                self.phase = Phase::Done;
                                let a = Action::Finish(Err(e));
                                assert(a->Finish_0->Err_0->NotFound_0@ == version_not_found(p.name@, p.versions@, self.requested@[k as int]@));
                                assert(!(forall|j: int| 0 <= j < n ==> has_version(p.versions@, (#[trigger] self.requested@[j])@)));
                                return a;
                            },
                            Ok(v) => {
                                let ghost iv = choose|i: int| is_first(p.versions@, self.requested@[k as int]@, i) && *v == p.versions@[i];
                                let slot = if n == 1 || k == 1 {
                                    String::from_str("b")
                                } else {
                                    String::from_str("a")
                                };
                                let ver = self.requested[k].as_str();
                                let order = FetchOrder {
                                    pkg: String::from_str(self.pkg.as_str()),
                                    version: String::from_str(ver),
                                    url: CratesRegistry::download_url(self.pkg.as_str(), ver),
                                    root: CratesRegistry::archive_root(self.pkg.as_str(), ver),
                                    slot,
                                    checksum: v.checksum,
                                };
                                let ghost before_orders = orders@;
                                orders.push(order);
                                yanked.push(v.yanked);
                                proof { lemma_first_index(p.versions@, self.requested@[k as int]@, iv); }
                                assert forall|j: int| 0 <= j < k + 1 implies {
                                    let rec = p.versions@[first_index(p.versions@, self.requested@[j]@)];
                                    &&& order_ok(#[trigger] orders@[j], self.pkg@, self.requested@[j]@, rec, slot_of(n as int, j))
                                    &&& yanked@[j] == rec.yanked
                                } by {
                                    if j < k {
                                        assert(orders@[j] == before_orders[j]);
                                    }
                                }
                            },
                        }
                        k = k + 1;
                    }
                    assert forall|j: int| !first_missing(p.versions@, self.requested@, j) by {}
                    self.orders = orders;
                    self.yanked = yanked;
                    self.phase = Phase::Allocating;
                    Action::Allocate(workspace_name(), n == 1)
                },
            },
        }
    }

    /// Takes the outcome of creating the workspace.
    pub fn on_allocated(&mut self, result: Result<(), String>) -> (a: Action)
        requires
            old(self).wf(),
            old(self).phase == Phase::Allocating,
        ensures
            final(self).wf(),
            allocated_step(*old(self), result, *final(self), a),
    {
        match result {
            Ok(()) => {
                let mut orders: Vec<FetchOrder> = Vec::new();
                std::mem::swap(&mut orders, &mut self.orders);
                self.phase = Phase::Fetching;
                Action::Fetch(orders)
            },
            Err(m) => {
                self.result = Some(Err(RegistryError::Workspace(m)));
                self.phase = Phase::Releasing;
                Action::Release
            },
        }
    }

    /// Takes the outcome of fetching every archive into its slot.
    pub fn on_fetched(&mut self, result: Result<(), RegistryError>) -> (a: Action)
        requires
            old(self).wf(),
            old(self).phase == Phase::Fetching,
        ensures
            final(self).wf(),
            fetched_step(*old(self), result, *final(self), a),
    {
        match result {
            Ok(()) => {
                self.phase = Phase::Diffing;
                Action::Diff
            },
            Err(e) => {
                self.result = Some(Err(e));
                self.phase = Phase::Releasing;
                Action::Release
            },
        }
    }

    /// Takes the differencing tool's output, or why it could not be had.
    pub fn on_diffed(&mut self, result: Result<String, String>) -> (a: Action)
        requires
            old(self).wf(),
            old(self).phase == Phase::Diffing,
        ensures
            final(self).wf(),
            diffed_step(*old(self), result, *final(self), a),
    {
        match result {
            Ok(diff) => {
                let mut yanked: Vec<bool> = Vec::new();
                std::mem::swap(&mut yanked, &mut self.yanked);
                self.result = Some(Ok(Outcome { diff, yanked }));
            },
            Err(m) => {
                self.result = Some(Err(RegistryError::DiffTool(m)));
            },
        }
        self.phase = Phase::Releasing;
        Action::Release
    }

    /// Takes the outcome of removing the workspace, and reports the result.
    pub fn on_released(&mut self, result: Result<(), String>) -> (a: Action)
        requires
            old(self).wf(),
            old(self).phase == Phase::Releasing,
        ensures
            final(self).wf(),
            released_step(*old(self), result, *final(self), a),
    {
        let kept = self.result.take();
        self.phase = Phase::Done;
        match kept {
            Some(Ok(outcome)) => match result {
                Ok(()) => Action::Finish(Ok(outcome)),
                Err(m) => Action::Finish(Err(RegistryError::Workspace(m))),
            },
            Some(Err(e)) => Action::Finish(Err(e)),
            None => {
                proof { assert(false); }
                Action::Finish(Err(RegistryError::UnknownRegistry))
            },
        }
    }
}

/// A registry starts the operations that diff its packages.
pub trait Registry {
    /// Starts diffing one version of `pkg` against an empty tree.
    fn inspect(&self, pkg: &str, version: &str) -> (r: (Operation, Action))
        ensures
            r.0.started(r.1, pkg@, seq![version@]),
    ;

    /// Starts diffing version `v1` of `pkg` against version `v2`.
    fn compare(&self, pkg: &str, v1: &str, v2: &str) -> (r: (Operation, Action))
        ensures
            r.0.started(r.1, pkg@, seq![v1@, v2@]),
    ;
}

impl Registry for CratesRegistry {
    fn inspect(&self, pkg: &str, version: &str) -> (r: (Operation, Action)) {
        let mut requested: Vec<String> = Vec::new();
        requested.push(String::from_str(version));
        Operation::start(pkg, requested)
    }

    fn compare(&self, pkg: &str, v1: &str, v2: &str) -> (r: (Operation, Action)) {
        let mut requested: Vec<String> = Vec::new();
        requested.push(String::from_str(v1));
        requested.push(String::from_str(v2));
        Operation::start(pkg, requested)
    }
}

/// One step of an operation: the transition that its phase's method makes on
/// some reported outcome.
pub open spec fn is_step(before: Operation, after: Operation, a: Action) -> bool {
    &&& before.wf()
    &&& is_transition(before, after, a)
}

/// The transition of `before`'s phase on some reported outcome.
pub open spec fn is_transition(before: Operation, after: Operation, a: Action) -> bool {
    ||| before.phase == Phase::LookingUp && exists|f: Result<Option<PackageRecord>, String>|
        lookup_step(before, f, after, a)
    ||| before.phase == Phase::Allocating && exists|r: Result<(), String>| allocated_step(before, r, after, a)
    ||| before.phase == Phase::Fetching && exists|r: Result<(), RegistryError>| fetched_step(before, r, after, a)
    ||| before.phase == Phase::Diffing && exists|r: Result<String, String>| diffed_step(before, r, after, a)
    ||| before.phase == Phase::Releasing && exists|r: Result<(), String>| released_step(before, r, after, a)
}

/// Each step keeps the workspace until it is released: the workspace is
/// requested only from the lookup; a phase that holds it is left only from
/// the release, whose step finishes; the release phase is entered only by
/// asking for the release; and an operation finishes only before it ever
/// requested a workspace or right after the release.
pub proof fn step_keeps_workspace_until_release(before: Operation, after: Operation, a: Action)
    requires
        is_step(before, after, a),
    ensures
        a is Allocate ==> before.phase == Phase::LookingUp && after.phase == Phase::Allocating,
        holds_workspace(before.phase) ==> holds_workspace(after.phase) || (before.phase == Phase::Releasing
            && after.phase == Phase::Done),
        !holds_workspace(before.phase) && holds_workspace(after.phase) ==> a is Allocate,
        after.phase == Phase::Releasing ==> before.phase != Phase::Releasing && a is Release,
        a is Finish <==> after.phase == Phase::Done,
        a is Finish ==> before.phase == Phase::LookingUp || before.phase == Phase::Releasing,
{
    if before.phase == Phase::LookingUp {
        let f = choose|f: Result<Option<PackageRecord>, String>| lookup_step(before, f, after, a);
        if f is Ok && f->Ok_0 is Some {
            let vs = f->Ok_0->Some_0.versions@;
            let req = before.requested@;
            if !has_version(vs, req[0]@) {
                assert(first_missing(vs, req, 0));
            } else if req.len() == 2 && !has_version(vs, req[1]@) {
                assert(first_missing(vs, req, 1));
            } else {
                assert(forall|k: int| 0 <= k < req.len() ==> has_version(vs, (#[trigger] req[k])@));
            }
        }
    }
}

proof fn lemma_reaches_release(ops: Seq<Operation>, acts: Seq<Action>, i: int) -> (m: int)
    requires
        ops.len() == acts.len() + 1,
        forall|k: int| 0 <= k < acts.len() ==> is_step(#[trigger] ops[k], ops[k + 1], acts[k]),
        0 <= i < ops.len(),
        holds_workspace(ops[i].phase),
        ops.last().phase == Phase::Done,
    ensures
        i <= m < ops.len(),
        ops[m].phase == Phase::Releasing,
    decreases ops.len() - i,
{
    if ops[i].phase == Phase::Releasing {
        i
    } else {
        step_keeps_workspace_until_release(ops[i], ops[i + 1], acts[i]);
        lemma_reaches_release(ops, acts, i + 1)
    }
}

/// An operation that ran from its start to its end and held a workspace at
/// any point asked for that workspace's release, and finished only on the
/// step after it.
pub proof fn finished_operation_released_workspace(ops: Seq<Operation>, acts: Seq<Action>, i: int) -> (j: int)
    requires
        ops.len() == acts.len() + 1,
        forall|k: int| 0 <= k < acts.len() ==> is_step(#[trigger] ops[k], ops[k + 1], acts[k]),
        ops[0].phase == Phase::LookingUp,
        ops.last().phase == Phase::Done,
        0 <= i < ops.len(),
        holds_workspace(ops[i].phase),
    ensures
        0 <= j < acts.len(),
        acts[j] is Release,
        ops[j + 1].phase == Phase::Releasing,
        forall|k: int| j < k < acts.len() - 1 ==> !(#[trigger] acts[k] is Finish),
{
    let m = lemma_reaches_release(ops, acts, i);
    step_keeps_workspace_until_release(ops[m - 1], ops[m], acts[m - 1]);
    assert forall|k: int| m - 1 < k < acts.len() - 1 implies !(#[trigger] acts[k] is Finish) by {
        step_keeps_workspace_until_release(ops[k], ops[k + 1], acts[k]);
        step_keeps_workspace_until_release(ops[k + 1], ops[k + 2], acts[k + 1]);
    }
    m - 1
}

/// A requested version that the package lacks ends the operation at lookup,
/// before any workspace is requested, with a not-found error that names the
/// first missing version and lists the versions that exist.
pub proof fn missing_version_fails_before_allocation(
    before: Operation,
    p: PackageRecord,
    after: Operation,
    a: Action,
    j: int,
)
    requires
        before.wf(),
        lookup_step(before, Ok(Some(p)), after, a),
        0 <= j < before.requested@.len(),
        !has_version(p.versions@, before.requested@[j]@),
    ensures
        after.phase == Phase::Done,
        !holds_workspace(after.phase),
        a is Finish && a->Finish_0 is Err && a->Finish_0->Err_0 is NotFound,
        exists|m: int| {
            &&& first_missing(p.versions@, before.requested@, m)
            &&& a->Finish_0->Err_0->NotFound_0@ == version_not_found(p.name@, p.versions@, before.requested@[m]@)
        },
{
    let m = if !has_version(p.versions@, before.requested@[0]@) { 0int } else { j };
    assert(first_missing(p.versions@, before.requested@, m));
}

/// An archive whose digest differs from the published one in even one byte
/// is not accepted, and the failed fetch has the workspace, into which
/// nothing more is unpacked, removed before the failure is reported.
pub proof fn mismatched_archive_is_rejected(
    order: FetchOrder,
    digest: Seq<u8>,
    i: int,
    before: Operation,
    e: RegistryError,
    after: Operation,
    a: Action,
)
    requires
        digest.len() == 32,
        0 <= i < 32,
        digest[i] != order.checksum@[i],
        fetched_step(before, Err(e), after, a),
    ensures
        digest != order.checksum@,
        a is Release,
        after.phase == Phase::Releasing,
        after.result == Some(Err::<Outcome, RegistryError>(e)),
{
}

} // verus!
