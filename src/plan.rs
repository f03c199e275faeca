//! The install plan: which packages to take from the cache, which to fetch,
//! which to reinstall and which to remove.

use vstd::prelude::*;
use crate::classify::{
    InstalledDist, InstalledModel, LockedRequirement, RequirementModel, ValidateCurrentInstall,
    need_reinstall, pep440_same, same_version, verdict,
};
use crate::locator::{Dist, DistModel, PackageError, convert_to_dist, dist_of, dist_name};

verus! {

/// The installer name that this library records on what it installs.
pub const UV_INSTALLER: &'static str = "uv-dof";

/// A package build held in the local cache.
pub struct CachedDist {
    pub name: String,
    pub version: String,
}

/// The cache of built packages, as the planner consults it.
pub trait CachedDistProvider {
    /// Whether the cache must revalidate the package, so that its entries
    /// count as stale.
    spec fn stale(&self, name: Seq<char>) -> bool;

    /// Whether the cache holds a build of the package at the version.
    spec fn holds(&self, name: Seq<char>, version: Seq<char>) -> bool;

    /// Whether the cache must revalidate the package.
    fn must_revalidate(&self, name: &String) -> (r: bool)
        ensures
            r == self.stale(name@),
    ;

    /// The cached build of the package at the version, if any.
    fn get_cached_dist(&self, name: &String, version: &String) -> (r: Option<CachedDist>)
        ensures
            r is Some == self.holds(name@, version@),
            r matches Some(d) ==> d.name@ == name@,
    ;
}

/// A snapshot of the cache: the builds it holds and the packages that it
/// must revalidate.
pub struct CacheIndex {
    pub entries: Vec<CachedDist>,
    pub revalidate: Vec<String>,
}

impl CachedDistProvider for CacheIndex {
    open spec fn stale(&self, name: Seq<char>) -> bool {
        exists|i: int| 0 <= i < self.revalidate@.len() && #[trigger] self.revalidate@[i]@ == name
    }

    open spec fn holds(&self, name: Seq<char>, version: Seq<char>) -> bool {
        exists|i: int|
            0 <= i < self.entries@.len() && #[trigger] self.entries@[i].name@ == name && pep440_same(
                self.entries@[i].version@,
                version,
            ) == Some(true)
    }

    fn must_revalidate(&self, name: &String) -> (r: bool) {
        let mut i: usize = 0;
        while i < self.revalidate.len()
            invariant
                i <= self.revalidate@.len(),
                forall|j: int| 0 <= j < i ==> #[trigger] self.revalidate@[j]@ != name@,
            decreases self.revalidate@.len() - i,
        {
            if self.revalidate[i] == *name {
                return true;
            }
            i = i + 1;
        }
        false
    }

    fn get_cached_dist(&self, name: &String, version: &String) -> (r: Option<CachedDist>) {
        let mut i: usize = 0;
        while i < self.entries.len()
            invariant
                i <= self.entries@.len(),
                forall|j: int|
                    0 <= j < i ==> !(#[trigger] self.entries@[j].name@ == name@ && pep440_same(
                        self.entries@[j].version@,
                        version@,
                    ) == Some(true)),
            decreases self.entries@.len() - i,
        {
            let e = &self.entries[i];
            if e.name == *name && same_version(e.version.as_str(), version.as_str()) == Some(true) {
                return Some(CachedDist { name: e.name.clone(), version: e.version.clone() });
            }
            i = i + 1;
        }
        None
    }
}

/// A required package that could not be planned, and why.
pub struct PlanFailure {
    pub name: String,
    pub error: PackageError,
}

/// What to do to bring the environment in line with the lock.
pub struct InstallPlan {
    /// Required packages to install from the local cache.
    pub local: Vec<CachedDist>,
    /// Required packages to fetch or build.
    pub remote: Vec<Dist>,
    /// Names of installed packages to remove and install again.
    pub reinstalls: Vec<String>,
    /// Names of installed packages to remove.
    pub extraneous: Vec<String>,
    /// Required packages whose location could not be turned into a source.
    pub errors: Vec<PlanFailure>,
}

/// The mathematical value of an [`InstallPlan`]; the local entries by name.
pub struct PlanModel {
    pub local: Seq<Seq<char>>,
    pub remote: Seq<DistModel>,
    pub reinstalls: Seq<Seq<char>>,
    pub extraneous: Seq<Seq<char>>,
    pub errors: Seq<(Seq<char>, PackageError)>,
}

impl View for InstallPlan {
    type V = PlanModel;

    open spec fn view(&self) -> PlanModel {
        PlanModel {
            local: self.local@.map_values(|d: CachedDist| d.name@),
            remote: self.remote@.map_values(|d: Dist| d@),
            reinstalls: self.reinstalls@.map_values(|s: String| s@),
            extraneous: self.extraneous@.map_values(|s: String| s@),
            errors: self.errors@.map_values(|f: PlanFailure| (f.name@, f.error)),
        }
    }
}

pub open spec fn empty_plan() -> PlanModel {
    PlanModel {
        local: Seq::empty(),
        remote: Seq::empty(),
        reinstalls: Seq::empty(),
        extraneous: Seq::empty(),
        errors: Seq::empty(),
    }
}

/// Where a required package comes from.
pub enum SourceModel {
    Local,
    Remote(DistModel),
    Failed(PackageError),
}

/// The source for a required package: fetched where the cache must
/// revalidate it, else the cache where it holds the version, else fetched.
pub open spec fn source_of<C: CachedDistProvider>(c: C, req: RequirementModel) -> SourceModel {
    if !c.stale(req.name) && c.holds(req.name, req.version) {
        SourceModel::Local
    } else {
        match dist_of(req) {
            Ok(d) => SourceModel::Remote(d),
            Err(e) => SourceModel::Failed(e),
        }
    }
}

/// The plan with the source of one required package added.
pub open spec fn add_source(p: PlanModel, name: Seq<char>, s: SourceModel) -> PlanModel {
    match s {
        SourceModel::Local => PlanModel { local: p.local.push(name), ..p },
        SourceModel::Remote(d) => PlanModel { remote: p.remote.push(d), ..p },
        SourceModel::Failed(e) => PlanModel { errors: p.errors.push((name, e)), ..p },
    }
}

/// The required package of a name, if any.
pub open spec fn lookup(reqs: Seq<RequirementModel>, name: Seq<char>) -> Option<RequirementModel> {
    if exists|i: int| 0 <= i < reqs.len() && #[trigger] reqs[i].name == name {
        let i = choose|i: int| 0 <= i < reqs.len() && #[trigger] reqs[i].name == name;
        Some(reqs[i])
    } else {
        None
    }
}

/// No two requirements share a name.
pub open spec fn unique_names(reqs: Seq<RequirementModel>) -> bool {
    forall|i: int, j: int|
        0 <= i < reqs.len() && 0 <= j < reqs.len() && #[trigger] reqs[i].name == #[trigger] reqs[j].name
            ==> i == j
}

/// What the first pass does with one installed package.
pub open spec fn step_installed<C: CachedDistProvider>(
    p: PlanModel,
    c: C,
    inst: InstalledModel,
    reqs: Seq<RequirementModel>,
    lock_dir: Seq<char>,
    managed: Seq<char>,
) -> PlanModel {
    match lookup(reqs, inst.name) {
        None => if inst.installer == managed {
            PlanModel { extraneous: p.extraneous.push(inst.name), ..p }
        } else {
            p
        },
        Some(req) => if inst.installer != managed || verdict(inst, req, lock_dir)
            == ValidateCurrentInstall::Reinstall {
            add_source(PlanModel { reinstalls: p.reinstalls.push(inst.name), ..p }, req.name, source_of(c, req))
        } else {
            p
        },
    }
}

/// The plan after the first pass over the installed packages.
pub open spec fn first_pass<C: CachedDistProvider>(
    c: C,
    installed: Seq<InstalledModel>,
    reqs: Seq<RequirementModel>,
    lock_dir: Seq<char>,
    managed: Seq<char>,
) -> PlanModel
    decreases installed.len(),
{
    if installed.len() == 0 {
        empty_plan()
    } else {
        step_installed(
            first_pass(c, installed.drop_last(), reqs, lock_dir, managed),
            c,
            installed.last(),
            reqs,
            lock_dir,
            managed,
        )
    }
}

/// Whether some installed package has the name.
pub open spec fn is_installed(installed: Seq<InstalledModel>, name: Seq<char>) -> bool {
    exists|j: int| 0 <= j < installed.len() && #[trigger] installed[j].name == name
}

/// The plan after the second pass, over the required packages that are not
/// installed.
pub open spec fn second_pass<C: CachedDistProvider>(
    p: PlanModel,
    c: C,
    installed: Seq<InstalledModel>,
    reqs: Seq<RequirementModel>,
) -> PlanModel
    decreases reqs.len(),
{
    if reqs.len() == 0 {
        p
    } else {
        let before = second_pass(p, c, installed, reqs.drop_last());
        let req = reqs.last();
        if is_installed(installed, req.name) {
            before
        } else {
            add_source(before, req.name, source_of(c, req))
        }
    }
}

/// The plan for installed packages against required ones.
pub open spec fn plan_of<C: CachedDistProvider>(
    c: C,
    installed: Seq<InstalledModel>,
    reqs: Seq<RequirementModel>,
    lock_dir: Seq<char>,
    managed: Seq<char>,
) -> PlanModel {
    second_pass(first_pass(c, installed, reqs, lock_dir, managed), c, installed, reqs)
}

pub open spec fn installed_views(v: Seq<InstalledDist>) -> Seq<InstalledModel> {
    v.map_values(|d: InstalledDist| d@)
}

pub open spec fn requirement_views(v: Seq<LockedRequirement>) -> Seq<RequirementModel> {
    v.map_values(|r: LockedRequirement| r@)
}

/// The required package named `name`, found by position.
fn find_required(required_pkgs: &Vec<LockedRequirement>, name: &String) -> (r: Option<usize>)
    requires
        unique_names(requirement_views(required_pkgs@)),
    ensures
        match r {
            Some(i) => i < required_pkgs@.len() && lookup(requirement_views(required_pkgs@), name@)
                == Some(required_pkgs@[i as int]@),
            None => lookup(requirement_views(required_pkgs@), name@) is None,
        },
{
    let ghost reqs = requirement_views(required_pkgs@);
    let mut i: usize = 0;
    while i < required_pkgs.len()
        invariant
            i <= required_pkgs@.len(),
            reqs == requirement_views(required_pkgs@),
            unique_names(reqs),
            forall|j: int| 0 <= j < i ==> #[trigger] reqs[j].name != name@,
        decreases required_pkgs@.len() - i,
    {
        if required_pkgs[i].name == *name {
            assert(reqs[i as int].name == name@);
            let ghost k = choose|k: int| 0 <= k < reqs.len() && #[trigger] reqs[k].name == name@;
            assert(reqs[k].name == reqs[i as int].name);
            assert(k == i as int);
            assert(reqs[i as int] == required_pkgs@[i as int]@);
            return Some(i);
        }
        i = i + 1;
    }
    None
}

/// Whether some installed package is named `name`.
fn installed_has(site_packages: &Vec<InstalledDist>, name: &String) -> (r: bool)
    ensures
        r == is_installed(installed_views(site_packages@), name@),
{
    let ghost inst = installed_views(site_packages@);
    let mut i: usize = 0;
    while i < site_packages.len()
        invariant
            i <= site_packages@.len(),
            inst == installed_views(site_packages@),
            forall|j: int| 0 <= j < i ==> #[trigger] inst[j].name != name@,
        decreases site_packages@.len() - i,
    {
        if site_packages[i].name == *name {
            assert(inst[i as int].name == name@);
            return true;
        }
        i = i + 1;
    }
    false
}

impl InstallPlan {
    /// A plan with nothing to do.
    pub fn empty() -> (r: InstallPlan)
        ensures
            r@ == empty_plan(),
    {
        let r = InstallPlan {
            local: Vec::new(),
            remote: Vec::new(),
            reinstalls: Vec::new(),
            extraneous: Vec::new(),
            errors: Vec::new(),
        };
        assert(r@.local =~= Seq::<Seq<char>>::empty());
        assert(r@.remote =~= Seq::<DistModel>::empty());
        assert(r@.reinstalls =~= Seq::<Seq<char>>::empty());
        assert(r@.extraneous =~= Seq::<Seq<char>>::empty());
        assert(r@.errors =~= Seq::<(Seq<char>, PackageError)>::empty());
        r
    }
}

/// Plans installs against a lock resolved in one directory, for one managed
/// installer name.
pub struct InstallPlanner {
    lock_file_dir: String,
    installer: String,
}

impl InstallPlanner {
    pub closed spec fn lock_dir(&self) -> Seq<char> {
        self.lock_file_dir@
    }

    pub closed spec fn managed(&self) -> Seq<char> {
        self.installer@
    }

    /// A planner for a lock resolved in `lock_file_dir`, managing what
    /// `installer` installed.
    pub fn new(lock_file_dir: String, installer: String) -> (r: InstallPlanner)
        ensures
            r.lock_dir() == lock_file_dir@,
            r.managed() == installer@,
    {
        InstallPlanner { lock_file_dir, installer }
    }

    /// The plan that brings the installed packages in line with the required
    /// ones. First each installed package in turn: one that is not required
    /// is removed where the managed installer put it and ignored otherwise;
    /// one that is required is reinstalled where another installer put it or
    /// where it no longer matches, and then needs a source. Then each required
    /// package that is not installed at all needs a source.
    pub fn plan<C: CachedDistProvider>(
        &self,
        site_packages: &Vec<InstalledDist>,
        dist_cache: &C,
        required_pkgs: &Vec<LockedRequirement>,
    ) -> (r: InstallPlan)
        requires
            unique_names(requirement_views(required_pkgs@)),
        ensures
            r@ == plan_of(
                *dist_cache,
                installed_views(site_packages@),
                requirement_views(required_pkgs@),
                self.lock_dir(),
                self.managed(),
            ),
    {
        let ghost inst = installed_views(site_packages@);
        let ghost reqs = requirement_views(required_pkgs@);
        let mut plan = InstallPlan::empty();
        let mut i: usize = 0;
        while i < site_packages.len()
            invariant
                i <= site_packages@.len(),
                inst == installed_views(site_packages@),
                reqs == requirement_views(required_pkgs@),
                unique_names(reqs),
                plan@ == first_pass(*dist_cache, inst.subrange(0, i as int), reqs, self.lock_dir(), self.managed()),
            decreases site_packages@.len() - i,
        {
            let ghost before = plan@;
            assert(inst.subrange(0, i + 1).drop_last() =~= inst.subrange(0, i as int));
            let dist = &site_packages[i];
            let managed = dist.installer == self.installer;
            match find_required(required_pkgs, &dist.name) {
                None => {
                    if managed {
                        plan.extraneous.push(dist.name.clone());
                        assert(plan@.extraneous =~= before.extraneous.push(dist.name@));
                        assert(plan@ =~= step_installed(before, *dist_cache, dist@, reqs, self.lock_dir(), self.managed()));
                    }
                },
                Some(k) => {
                    let required_pkg = &required_pkgs[k];
                    let replace = !managed || need_reinstall(dist, required_pkg, self.lock_file_dir.as_str())
                        == ValidateCurrentInstall::Reinstall;
                    if replace {
                        plan.reinstalls.push(dist.name.clone());
                        assert(plan@.reinstalls =~= before.reinstalls.push(dist.name@));
                        self.decide_installation_source(required_pkg, &mut plan, dist_cache);
                    }
                },
            }
            i = i + 1;
        }
        assert(inst.subrange(0, i as int) =~= inst);
        let ghost after_first = plan@;
        let mut k: usize = 0;
        while k < required_pkgs.len()
            invariant
                k <= required_pkgs@.len(),
                inst == installed_views(site_packages@),
                reqs == requirement_views(required_pkgs@),
                plan@ == second_pass(after_first, *dist_cache, inst, reqs.subrange(0, k as int)),
            decreases required_pkgs@.len() - k,
        {
            assert(reqs.subrange(0, k + 1).drop_last() =~= reqs.subrange(0, k as int));
            let required_pkg = &required_pkgs[k];
            if !installed_has(site_packages, &required_pkg.name) {
                self.decide_installation_source(required_pkg, &mut plan, dist_cache);
            }
            k = k + 1;
        }
        assert(reqs.subrange(0, k as int) =~= reqs);
        plan
    }

    /// Adds the source of a required package to the plan: the cache where it
    /// need not be revalidated and holds the version, else a fetch.
    fn decide_installation_source<C: CachedDistProvider>(
        &self,
        required_pkg: &LockedRequirement,
        plan: &mut InstallPlan,
        dist_cache: &C,
    )
        ensures
            final(plan)@ == add_source(old(plan)@, required_pkg@.name, source_of(*dist_cache, required_pkg@)),
    {
        let name = &required_pkg.name;
        if !dist_cache.must_revalidate(name) {
            if let Some(d) = dist_cache.get_cached_dist(name, &required_pkg.version) {
                plan.local.push(d);
                assert(final(plan)@.local =~= old(plan)@.local.push(name@));
                assert(final(plan)@ =~= add_source(old(plan)@, name@, SourceModel::Local));
                return;
            }
        }
        match convert_to_dist(required_pkg) {
            Ok(d) => {
                plan.remote.push(d);
                assert(final(plan)@.remote =~= old(plan)@.remote.push(d@));
            },
            Err(e) => {
                plan.errors.push(PlanFailure { name: name.clone(), error: e });
                assert(final(plan)@.errors =~= old(plan)@.errors.push((name@, e)));
            },
        }
        assert(final(plan)@ =~= add_source(old(plan)@, required_pkg@.name, source_of(*dist_cache, required_pkg@)));
    }
}

proof fn lemma_push_contains<A>(s: Seq<A>, v: A, x: A)
    ensures
        s.push(v).contains(x) == (s.contains(x) || x == v),
{
    if s.contains(x) {
        let i = choose|i: int| 0 <= i < s.len() && s[i] == x;
        assert(s.push(v)[i] == x);
    }
    if x == v {
        assert(s.push(v)[s.len() as int] == x);
    }
    if s.push(v).contains(x) {
        let i = choose|i: int| 0 <= i < s.push(v).len() && s.push(v)[i] == x;
        if i < s.len() {
            assert(s[i] == x);
        }
    }
}

proof fn lemma_dist_name(req: RequirementModel)
    ensures
        dist_of(req) matches Ok(d) ==> dist_name(d) == req.name,
{
}

/// Whether the plan fetches a package of the name.
pub open spec fn fetches(p: PlanModel, x: Seq<char>) -> bool {
    exists|d: DistModel| p.remote.contains(d) && dist_name(d) == x
}

/// Whether the plan reports an error for a package of the name.
pub open spec fn fails(p: PlanModel, x: Seq<char>) -> bool {
    exists|e: PackageError| p.errors.contains((x, e))
}

/// Whether the plan gives the name a source: the cache, a fetch, or an error.
pub open spec fn sourced(p: PlanModel, x: Seq<char>) -> bool {
    p.local.contains(x) || fetches(p, x) || fails(p, x)
}

/// The name gets at most one kind of source.
pub open spec fn one_kind_of_source(p: PlanModel, x: Seq<char>) -> bool {
    &&& !(p.local.contains(x) && fetches(p, x))
    &&& !(p.local.contains(x) && fails(p, x))
    &&& !(fetches(p, x) && fails(p, x))
}

/// A name may get a source only where it is required, and either not
/// installed or reinstalled.
pub open spec fn may_source(
    p: PlanModel,
    installed: Seq<InstalledModel>,
    reqs: Seq<RequirementModel>,
    x: Seq<char>,
) -> bool {
    lookup(reqs, x) is Some && (!is_installed(installed, x) || p.reinstalls.contains(x))
}

/// What holds of a plan while it is built: reinstalled names are installed
/// and required, removed names are installed and not required, and each
/// source is the one that the cache and the location give for its name.
pub open spec fn plan_sound<C: CachedDistProvider>(
    p: PlanModel,
    c: C,
    installed: Seq<InstalledModel>,
    reqs: Seq<RequirementModel>,
) -> bool {
    &&& forall|x: Seq<char>|
        #[trigger] p.reinstalls.contains(x) ==> is_installed(installed, x) && lookup(reqs, x) is Some
    &&& forall|x: Seq<char>|
        #[trigger] p.extraneous.contains(x) ==> is_installed(installed, x) && lookup(reqs, x) is None
    &&& forall|x: Seq<char>|
        #[trigger] p.local.contains(x) ==> may_source(p, installed, reqs, x) && source_of(
            c,
            lookup(reqs, x).unwrap(),
        ) is Local
    &&& forall|d: DistModel|
        #[trigger] p.remote.contains(d) ==> may_source(p, installed, reqs, dist_name(d)) && source_of(
            c,
            lookup(reqs, dist_name(d)).unwrap(),
        ) == SourceModel::Remote(d)
    &&& forall|x: Seq<char>, e: PackageError|
        #[trigger] p.errors.contains((x, e)) ==> may_source(p, installed, reqs, x) && source_of(
            c,
            lookup(reqs, x).unwrap(),
        ) == SourceModel::Failed(e)
}

proof fn lemma_add_reinstall_sound<C: CachedDistProvider>(
    p: PlanModel,
    c: C,
    installed: Seq<InstalledModel>,
    reqs: Seq<RequirementModel>,
    x: Seq<char>,
)
    requires
        plan_sound(p, c, installed, reqs),
        is_installed(installed, x),
        lookup(reqs, x) is Some,
    ensures
        plan_sound(PlanModel { reinstalls: p.reinstalls.push(x), ..p }, c, installed, reqs),
{
    let q = PlanModel { reinstalls: p.reinstalls.push(x), ..p };
    assert forall|y: Seq<char>| #[trigger] q.reinstalls.contains(y) implies is_installed(installed, y)
        && lookup(reqs, y) is Some by {
        lemma_push_contains(p.reinstalls, x, y);
    }
    assert forall|y: Seq<char>| p.reinstalls.contains(y) implies #[trigger] q.reinstalls.contains(y) by {
        lemma_push_contains(p.reinstalls, x, y);
    }
}

proof fn lemma_add_source_sound<C: CachedDistProvider>(
    p: PlanModel,
    c: C,
    installed: Seq<InstalledModel>,
    reqs: Seq<RequirementModel>,
    req: RequirementModel,
)
    requires
        plan_sound(p, c, installed, reqs),
        lookup(reqs, req.name) == Some(req),
        may_source(p, installed, reqs, req.name),
    ensures
        plan_sound(add_source(p, req.name, source_of(c, req)), c, installed, reqs),
        sourced(add_source(p, req.name, source_of(c, req)), req.name),
        forall|y: Seq<char>| sourced(p, y) ==> #[trigger] sourced(add_source(p, req.name, source_of(c, req)), y),
        add_source(p, req.name, source_of(c, req)).reinstalls == p.reinstalls,
        add_source(p, req.name, source_of(c, req)).extraneous == p.extraneous,
{
    let x = req.name;
    lemma_dist_name(req);
    let q = add_source(p, x, source_of(c, req));
    match source_of(c, req) {
        SourceModel::Local => {
            assert forall|y: Seq<char>| #[trigger] q.local.contains(y) implies may_source(q, installed, reqs, y)
                && source_of(c, lookup(reqs, y).unwrap()) is Local by {
                lemma_push_contains(p.local, x, y);
            }
            lemma_push_contains(p.local, x, x);
            assert forall|y: Seq<char>| sourced(p, y) implies #[trigger] sourced(q, y) by {
                lemma_push_contains(p.local, x, y);
                if fetches(p, y) {
                    let d2 = choose|d2: DistModel| p.remote.contains(d2) && dist_name(d2) == y;
                    assert(q.remote.contains(d2));
                }
                if fails(p, y) {
                    let e2 = choose|e2: PackageError| p.errors.contains((y, e2));
                    assert(q.errors.contains((y, e2)));
                }
            }
        },
        SourceModel::Remote(d) => {
            assert forall|d2: DistModel| #[trigger] q.remote.contains(d2) implies may_source(
                q,
                installed,
                reqs,
                dist_name(d2),
            ) && source_of(c, lookup(reqs, dist_name(d2)).unwrap()) == SourceModel::Remote(d2) by {
                lemma_push_contains(p.remote, d, d2);
            }
            lemma_push_contains(p.remote, d, d);
            assert(dist_name(d) == x);
            assert(q.remote.contains(d) && dist_name(d) == x);
            assert forall|y: Seq<char>| sourced(p, y) implies #[trigger] sourced(q, y) by {
                if fetches(p, y) {
                    let d2 = choose|d2: DistModel| p.remote.contains(d2) && dist_name(d2) == y;
                    lemma_push_contains(p.remote, d, d2);
                    assert(q.remote.contains(d2));
                }
                if fails(p, y) {
                    let e2 = choose|e2: PackageError| p.errors.contains((y, e2));
                    assert(q.errors.contains((y, e2)));
                }
                if p.local.contains(y) {
                    assert(q.local.contains(y));
                }
            }
        },
        SourceModel::Failed(e) => {
            assert forall|y: Seq<char>, e2: PackageError| #[trigger] q.errors.contains((y, e2)) implies may_source(
                q,
                installed,
                reqs,
                y,
            ) && source_of(c, lookup(reqs, y).unwrap()) == SourceModel::Failed(e2) by {
                lemma_push_contains(p.errors, (x, e), (y, e2));
            }
            lemma_push_contains(p.errors, (x, e), (x, e));
            assert(q.errors.contains((x, e)));
            assert forall|y: Seq<char>| sourced(p, y) implies #[trigger] sourced(q, y) by {
                if fails(p, y) {
                    let e2 = choose|e2: PackageError| p.errors.contains((y, e2));
                    lemma_push_contains(p.errors, (x, e), (y, e2));
                    assert(q.errors.contains((y, e2)));
                }
                if fetches(p, y) {
                    let d2 = choose|d2: DistModel| p.remote.contains(d2) && dist_name(d2) == y;
                    assert(q.remote.contains(d2));
                }
                if p.local.contains(y) {
                    assert(q.local.contains(y));
                }
            }
        },
    }
}

proof fn lemma_lookup_found(reqs: Seq<RequirementModel>, k: int)
    requires
        unique_names(reqs),
        0 <= k < reqs.len(),
    ensures
        lookup(reqs, reqs[k].name) == Some(reqs[k]),
{
    let name = reqs[k].name;
    assert(reqs[k].name == name);
    let i = choose|i: int| 0 <= i < reqs.len() && #[trigger] reqs[i].name == name;
    assert(reqs[i].name == reqs[k].name);
}

proof fn lemma_lookup_name(reqs: Seq<RequirementModel>, x: Seq<char>)
    ensures
        lookup(reqs, x) matches Some(r) ==> r.name == x,
{
}

proof fn lemma_first_pass_sound<C: CachedDistProvider>(
    c: C,
    installed: Seq<InstalledModel>,
    reqs: Seq<RequirementModel>,
    lock_dir: Seq<char>,
    managed: Seq<char>,
    k: int,
)
    requires
        0 <= k <= installed.len(),
    ensures
        plan_sound(first_pass(c, installed.subrange(0, k), reqs, lock_dir, managed), c, installed, reqs),
        forall|i: int|
            0 <= i < k && installed[i].installer != managed && lookup(reqs, installed[i].name) is Some
                ==> #[trigger] first_pass(c, installed.subrange(0, k), reqs, lock_dir, managed).reinstalls.contains(
                installed[i].name,
            ),
    decreases k,
{
    let pre = installed.subrange(0, k);
    if k == 0 {
        assert(pre =~= Seq::<InstalledModel>::empty());
    } else {
        lemma_first_pass_sound(c, installed, reqs, lock_dir, managed, k - 1);
        assert(pre.drop_last() =~= installed.subrange(0, k - 1));
        let p = first_pass(c, installed.subrange(0, k - 1), reqs, lock_dir, managed);
        let inst = installed[k - 1];
        assert(pre.last() == inst);
        assert(is_installed(installed, inst.name)) by {
            assert(installed[k - 1].name == inst.name);
        }
        let q = first_pass(c, pre, reqs, lock_dir, managed);
        assert(q == step_installed(p, c, inst, reqs, lock_dir, managed));
        lemma_lookup_name(reqs, inst.name);
        match lookup(reqs, inst.name) {
            None => {
                if inst.installer == managed {
                    assert forall|y: Seq<char>| #[trigger] q.extraneous.contains(y) implies is_installed(
                        installed,
                        y,
                    ) && lookup(reqs, y) is None by {
                        lemma_push_contains(p.extraneous, inst.name, y);
                    }
                }
            },
            Some(req) => {
                if inst.installer != managed || verdict(inst, req, lock_dir)
                    == ValidateCurrentInstall::Reinstall {
                    let r = PlanModel { reinstalls: p.reinstalls.push(inst.name), ..p };
                    lemma_add_reinstall_sound(p, c, installed, reqs, inst.name);
                    lemma_push_contains(p.reinstalls, inst.name, inst.name);
                    lemma_add_source_sound(r, c, installed, reqs, req);
                    assert forall|i: int|
                        0 <= i < k && installed[i].installer != managed && lookup(reqs, installed[i].name) is Some
                            implies #[trigger] q.reinstalls.contains(installed[i].name) by {
                        if i < k - 1 {
                            lemma_push_contains(p.reinstalls, inst.name, installed[i].name);
                        }
                    }
                }
            },
        }
    }
}

proof fn lemma_second_pass_sound<C: CachedDistProvider>(
    p: PlanModel,
    c: C,
    installed: Seq<InstalledModel>,
    reqs: Seq<RequirementModel>,
    k: int,
)
    requires
        0 <= k <= reqs.len(),
        unique_names(reqs),
        plan_sound(p, c, installed, reqs),
    ensures
        plan_sound(second_pass(p, c, installed, reqs.subrange(0, k)), c, installed, reqs),
        second_pass(p, c, installed, reqs.subrange(0, k)).reinstalls == p.reinstalls,
        second_pass(p, c, installed, reqs.subrange(0, k)).extraneous == p.extraneous,
        forall|y: Seq<char>| sourced(p, y) ==> #[trigger] sourced(second_pass(p, c, installed, reqs.subrange(0, k)), y),
        forall|i: int|
            0 <= i < k && !is_installed(installed, reqs[i].name) ==> #[trigger] sourced(
                second_pass(p, c, installed, reqs.subrange(0, k)),
                reqs[i].name,
            ),
    decreases k,
{
    let pre = reqs.subrange(0, k);
    if k == 0 {
        assert(pre =~= Seq::<RequirementModel>::empty());
    } else {
        lemma_second_pass_sound(p, c, installed, reqs, k - 1);
        assert(pre.drop_last() =~= reqs.subrange(0, k - 1));
        let before = second_pass(p, c, installed, reqs.subrange(0, k - 1));
        let req = reqs[k - 1];
        assert(pre.last() == req);
        if !is_installed(installed, req.name) {
            lemma_lookup_found(reqs, k - 1);
            lemma_add_source_sound(before, c, installed, reqs, req);
        }
    }
}

/// The plan partitions the packages. Reinstalled names are installed and
/// required; removed names are installed and not required, so the two never
/// meet, and an installed package in neither is kept. Each required package
/// that is not installed gets a source: the cache, a fetch, or an error. No
/// name gets two kinds of source, and a name gets a source only where it is
/// required and either not installed or reinstalled.
pub proof fn lemma_plan_partition<C: CachedDistProvider>(
    c: C,
    installed: Seq<InstalledModel>,
    reqs: Seq<RequirementModel>,
    lock_dir: Seq<char>,
    managed: Seq<char>,
)
    requires
        unique_names(reqs),
    ensures
        forall|x: Seq<char>|
            #[trigger] plan_of(c, installed, reqs, lock_dir, managed).reinstalls.contains(x) ==> is_installed(
                installed,
                x,
            ) && lookup(reqs, x) is Some,
        forall|x: Seq<char>|
            #[trigger] plan_of(c, installed, reqs, lock_dir, managed).extraneous.contains(x) ==> is_installed(
                installed,
                x,
            ) && lookup(reqs, x) is None,
        forall|i: int|
            0 <= i < reqs.len() && !is_installed(installed, reqs[i].name) ==> #[trigger] sourced(
                plan_of(c, installed, reqs, lock_dir, managed),
                reqs[i].name,
            ),
        forall|x: Seq<char>|
            #[trigger] sourced(plan_of(c, installed, reqs, lock_dir, managed), x) ==> may_source(
                plan_of(c, installed, reqs, lock_dir, managed),
                installed,
                reqs,
                x,
            ),
        forall|x: Seq<char>| #[trigger] one_kind_of_source(plan_of(c, installed, reqs, lock_dir, managed), x),
{
    lemma_first_pass_sound(c, installed, reqs, lock_dir, managed, installed.len() as int);
    assert(installed.subrange(0, installed.len() as int) =~= installed);
    let first = first_pass(c, installed, reqs, lock_dir, managed);
    lemma_second_pass_sound(first, c, installed, reqs, reqs.len() as int);
    assert(reqs.subrange(0, reqs.len() as int) =~= reqs);
    let p = plan_of(c, installed, reqs, lock_dir, managed);
    assert forall|x: Seq<char>| #[trigger] sourced(p, x) implies may_source(p, installed, reqs, x) by {
        if fetches(p, x) {
            let d = choose|d: DistModel| p.remote.contains(d) && dist_name(d) == x;
        }
        if fails(p, x) {
            let e = choose|e: PackageError| p.errors.contains((x, e));
        }
    }
    assert forall|x: Seq<char>| #[trigger] one_kind_of_source(p, x) by {
        if fetches(p, x) {
            let d = choose|d: DistModel| p.remote.contains(d) && dist_name(d) == x;
        }
        if fails(p, x) {
            let e = choose|e: PackageError| p.errors.contains((x, e));
        }
    }
}

/// A required package that another installer put in place is reinstalled,
/// whatever its version.
pub proof fn lemma_foreign_install_reinstalled<C: CachedDistProvider>(
    c: C,
    installed: Seq<InstalledModel>,
    reqs: Seq<RequirementModel>,
    lock_dir: Seq<char>,
    managed: Seq<char>,
    i: int,
)
    requires
        unique_names(reqs),
        0 <= i < installed.len(),
        installed[i].installer != managed,
        lookup(reqs, installed[i].name) is Some,
    ensures
        plan_of(c, installed, reqs, lock_dir, managed).reinstalls.contains(installed[i].name),
{
    lemma_first_pass_sound(c, installed, reqs, lock_dir, managed, installed.len() as int);
    assert(installed.subrange(0, installed.len() as int) =~= installed);
    let first = first_pass(c, installed, reqs, lock_dir, managed);
    lemma_second_pass_sound(first, c, installed, reqs, reqs.len() as int);
    assert(reqs.subrange(0, reqs.len() as int) =~= reqs);
}

} // verus!
