//! The decisions of the development watcher: what a batch of file events
//! asks to refresh, rebuild and restart.
use vstd::prelude::*;
use crate::process_manager::ProcessId;
use crate::text::{views, has_prefix, has_suffix, starts_with, ends_with, str_eq};

verus! {

broadcast use vstd::string::group_string_axioms;

/// The change to the server-rendered bundle's sources that a change of this
/// file is: an environment file (its name starts with `.env`), or a file
/// whose path ends in `sx` (`.tsx`, `.jsx`) or `mdx`.
pub open spec fn spec_ssr_reload_needed(path: Seq<char>, file_name: Option<Seq<char>>) -> bool {
    (file_name matches Some(n) && has_prefix(n, ".env"@)) || has_suffix(path, "sx"@) || has_suffix(
        path,
        "mdx"@,
    )
}

/// Whether a change of the file at `path`, named `file_name`, needs the
/// server-rendered bundle rebuilt.
pub fn ssr_reload_needed(path: &str, file_name: Option<&str>) -> (res: bool)
    ensures
        res == spec_ssr_reload_needed(path@, match file_name {
            Some(n) => Some(n@),
            None => None,
        }),
{
    let env_file = match file_name {
        Some(n) => starts_with(n, ".env"),
        None => false,
    };
    env_file || ends_with(path, "sx") || ends_with(path, "mdx")
}

/// Whether a file of the project's folder is an environment file, watched
/// beside the sources: its name starts with `.env`.
pub fn is_env_file_name(name: &str) -> (res: bool)
    ensures
        res == has_prefix(name@, ".env"@),
{
    starts_with(name, ".env")
}

/// The kind of a file event.
#[derive(Debug, Clone, Copy, PartialEq, Eq, Structural)]
pub enum FileEventKind {
    Remove,
    Modify,
    Other,
}

/// A path that an event is about.
#[derive(Debug)]
pub struct EventPath {
    pub path: String,
    /// The file's name, when the path has one.
    pub file_name: Option<String>,
    /// The file's extension, when it has one.
    pub extension: Option<String>,
}

/// A file event: its kinds and the paths it is about.
#[derive(Debug)]
pub struct WatchEvent {
    pub kinds: Vec<FileEventKind>,
    pub paths: Vec<EventPath>,
}

/// What a batch of events asks for.
#[derive(Debug)]
pub struct ReloadPlan {
    /// Rust files whose types are read again, in event order.
    pub refresh_types: Vec<String>,
    /// Rust files whose types are dropped, in event order.
    pub remove_types: Vec<String>,
    /// The Rust development server is restarted.
    pub reload_rust_server: bool,
    /// The routes are collected again and the server sources regenerated.
    pub refresh_axum_source: bool,
    /// The server-rendered bundle is rebuilt.
    pub reload_ssr_bundle: bool,
}

/// A plan as plain values.
pub struct PlanSpec {
    pub refresh_types: Seq<Seq<char>>,
    pub remove_types: Seq<Seq<char>>,
    pub reload_rust_server: bool,
    pub refresh_axum_source: bool,
    pub reload_ssr_bundle: bool,
}

impl View for ReloadPlan {
    type V = PlanSpec;

    open spec fn view(&self) -> PlanSpec {
        PlanSpec {
            refresh_types: views(self.refresh_types@),
            remove_types: views(self.remove_types@),
            reload_rust_server: self.reload_rust_server,
            refresh_axum_source: self.refresh_axum_source,
            reload_ssr_bundle: self.reload_ssr_bundle,
        }
    }
}

/// The plan that asks for nothing.
pub open spec fn empty_plan() -> PlanSpec {
    PlanSpec {
        refresh_types: Seq::empty(),
        remove_types: Seq::empty(),
        reload_rust_server: false,
        refresh_axum_source: false,
        reload_ssr_bundle: false,
    }
}

/// The path is a Rust file.
pub open spec fn is_rust_file(p: EventPath) -> bool {
    p.extension matches Some(e) && e@ == "rs"@
}

/// The plan after one event kind on one path: removing a Rust file drops
/// its types and regenerates the server sources; modifying a Rust file reads
/// its types again and restarts the server; modifying a client source or an
/// environment file rebuilds the server-rendered bundle.
pub open spec fn path_step(plan: PlanSpec, kind: FileEventKind, p: EventPath) -> PlanSpec {
    match kind {
        FileEventKind::Remove => if is_rust_file(p) {
            PlanSpec {
                refresh_types: plan.refresh_types,
                remove_types: plan.remove_types.push(p.path@),
                reload_rust_server: plan.reload_rust_server,
                refresh_axum_source: true,
                reload_ssr_bundle: plan.reload_ssr_bundle,
            }
        } else {
            plan
        },
        FileEventKind::Modify => PlanSpec {
            refresh_types: if is_rust_file(p) {
                plan.refresh_types.push(p.path@)
            } else {
                plan.refresh_types
            },
            remove_types: plan.remove_types,
            reload_rust_server: plan.reload_rust_server || is_rust_file(p),
            refresh_axum_source: plan.refresh_axum_source,
            reload_ssr_bundle: plan.reload_ssr_bundle || spec_ssr_reload_needed(
                p.path@,
                match p.file_name {
                    Some(n) => Some(n@),
                    None => None,
                },
            ),
        },
        FileEventKind::Other => plan,
    }
}

/// The plan after one event kind on each of the paths, in order.
pub open spec fn paths_step(plan: PlanSpec, kind: FileEventKind, paths: Seq<EventPath>) -> PlanSpec
    decreases paths.len(),
{
    if paths.len() == 0 {
        plan
    } else {
        path_step(paths_step(plan, kind, paths.drop_last()), kind, paths.last())
    }
}

/// The plan after each kind of an event on each of its paths.
pub open spec fn kinds_step(plan: PlanSpec, kinds: Seq<FileEventKind>, paths: Seq<EventPath>) -> PlanSpec
    decreases kinds.len(),
{
    if kinds.len() == 0 {
        plan
    } else {
        paths_step(kinds_step(plan, kinds.drop_last(), paths), kinds.last(), paths)
    }
}

/// The plan of a batch of events, taken in order.
pub open spec fn plan_events(events: Seq<WatchEvent>) -> PlanSpec
    decreases events.len(),
{
    if events.len() == 0 {
        empty_plan()
    } else {
        kinds_step(plan_events(events.drop_last()), events.last().kinds@, events.last().paths@)
    }
}

/// The processes a plan restarts, in order: the Rust server when Rust
/// sources changed, then the server-rendered bundle's build.
pub open spec fn restarts(plan: PlanSpec) -> Seq<ProcessId> {
    let rust = if plan.reload_rust_server || plan.refresh_axum_source {
        seq![ProcessId::RunRustDevServer]
    } else {
        Seq::empty()
    };
    if plan.reload_ssr_bundle {
        rust.push(ProcessId::BuildReactSSRSrc)
    } else {
        rust
    }
}

/// Every request of `a` is also one of `b`.
pub open spec fn asks_at_least(a: PlanSpec, b: PlanSpec) -> bool {
    &&& a.reload_rust_server ==> b.reload_rust_server
    &&& a.refresh_axum_source ==> b.refresh_axum_source
    &&& a.reload_ssr_bundle ==> b.reload_ssr_bundle
}

proof fn lemma_paths_grow(plan: PlanSpec, kind: FileEventKind, paths: Seq<EventPath>, j: int)
    requires
        0 <= j <= paths.len(),
    ensures
        asks_at_least(paths_step(plan, kind, paths.take(j)), paths_step(plan, kind, paths)),
    decreases paths.len() - j,
{
    if j < paths.len() {
        lemma_paths_grow(plan, kind, paths, j + 1);
        assert(paths.take(j + 1).drop_last() =~= paths.take(j));
    } else {
        assert(paths.take(j) =~= paths);
    }
}

proof fn lemma_kinds_grow(plan: PlanSpec, kinds: Seq<FileEventKind>, paths: Seq<EventPath>, k: int)
    requires
        0 <= k <= kinds.len(),
    ensures
        asks_at_least(kinds_step(plan, kinds.take(k), paths), kinds_step(plan, kinds, paths)),
    decreases kinds.len() - k,
{
    if k < kinds.len() {
        lemma_kinds_grow(plan, kinds, paths, k + 1);
        assert(kinds.take(k + 1).drop_last() =~= kinds.take(k));
        lemma_paths_grow(kinds_step(plan, kinds.take(k), paths), kinds[k], paths, 0);
        assert(paths.take(0) =~= Seq::<EventPath>::empty());
    } else {
        assert(kinds.take(k) =~= kinds);
    }
}

proof fn lemma_events_grow(events: Seq<WatchEvent>, i: int)
    requires
        0 <= i <= events.len(),
    ensures
        asks_at_least(plan_events(events.take(i)), plan_events(events)),
    decreases events.len() - i,
{
    if i < events.len() {
        lemma_events_grow(events, i + 1);
        assert(events.take(i + 1).drop_last() =~= events.take(i));
        let e = events[i];
        lemma_kinds_grow(plan_events(events.take(i)), e.kinds@, e.paths@, 0);
        assert(e.kinds@.take(0) =~= Seq::<FileEventKind>::empty());
    } else {
        assert(events.take(i) =~= events);
    }
}

/// A batch in which some event removes a Rust file regenerates the server
/// sources and restarts the Rust server; one in which some event modifies a
/// Rust file restarts the Rust server.
pub proof fn law_rust_changes_restart_the_server(events: Seq<WatchEvent>, i: int, k: int, j: int)
    requires
        0 <= i < events.len(),
        0 <= k < events[i].kinds@.len(),
        0 <= j < events[i].paths@.len(),
        is_rust_file(events[i].paths@[j]),
        events[i].kinds@[k] != FileEventKind::Other,
    ensures
        events[i].kinds@[k] == FileEventKind::Remove ==> plan_events(events).refresh_axum_source,
        events[i].kinds@[k] == FileEventKind::Modify ==> plan_events(events).reload_rust_server,
        restarts(plan_events(events)).contains(ProcessId::RunRustDevServer),
{
    let e = events[i];
    let start = plan_events(events.take(i));
    let before_kind = kinds_step(start, e.kinds@.take(k), e.paths@);
    let kind = e.kinds@[k];
    let before_path = paths_step(before_kind, kind, e.paths@.take(j));
    let after_path = path_step(before_path, kind, e.paths@[j]);
    assert(e.paths@.take(j + 1).drop_last() =~= e.paths@.take(j));
    assert(paths_step(before_kind, kind, e.paths@.take(j + 1)) == after_path);
    lemma_paths_grow(before_kind, kind, e.paths@, j + 1);
    assert(e.kinds@.take(k + 1).drop_last() =~= e.kinds@.take(k));
    assert(kinds_step(start, e.kinds@.take(k + 1), e.paths@) == paths_step(before_kind, kind, e.paths@));
    lemma_kinds_grow(start, e.kinds@, e.paths@, k + 1);
    assert(events.take(i + 1).drop_last() =~= events.take(i));
    assert(plan_events(events.take(i + 1)) == kinds_step(start, e.kinds@, e.paths@));
    lemma_events_grow(events, i + 1);
    let plan = plan_events(events);
    assert(plan.reload_rust_server || plan.refresh_axum_source);
    assert(restarts(plan)[0] == ProcessId::RunRustDevServer);
}

proof fn lemma_suffix_of_suffix(s: Seq<char>, p: Seq<char>, q: Seq<char>)
    requires
        has_suffix(s, p),
        has_suffix(p, q),
    ensures
        has_suffix(s, q),
{
    assert forall|x: int| 0 <= x < q.len() implies s.skip(s.len() - q.len())[x] == q[x] by {
        assert(s.skip(s.len() - q.len())[x] == s[s.len() - q.len() + x]);
        assert(s.skip(s.len() - p.len())[p.len() - q.len() + x] == s[s.len() - q.len() + x]);
        assert(p.skip(p.len() - q.len())[x] == p[p.len() - q.len() + x]);
    }
    assert(s.skip(s.len() - q.len()) =~= q);
}

/// A batch in which some event modifies a page or component source (a path
/// ending in `.jsx`, `.tsx` or `.mdx`) or an environment file (a name
/// starting with `.env`) rebuilds the server-rendered bundle: the plan asks
/// for it and the bundle's build is among the restarts.
pub proof fn law_client_source_changes_rebuild_the_bundle(
    events: Seq<WatchEvent>,
    i: int,
    k: int,
    j: int,
)
    requires
        0 <= i < events.len(),
        0 <= k < events[i].kinds@.len(),
        0 <= j < events[i].paths@.len(),
        events[i].kinds@[k] == FileEventKind::Modify,
        has_suffix(events[i].paths@[j].path@, ".jsx"@) || has_suffix(events[i].paths@[j].path@, ".tsx"@)
            || has_suffix(events[i].paths@[j].path@, ".mdx"@) || (events[i].paths@[j].file_name matches Some(
            n
        ) && has_prefix(n@, ".env"@)),
    ensures
        plan_events(events).reload_ssr_bundle,
        restarts(plan_events(events)).contains(ProcessId::BuildReactSSRSrc),
{
    let e = events[i];
    let path = e.paths@[j].path@;
    reveal_strlit(".jsx");
    reveal_strlit(".tsx");
    reveal_strlit(".mdx");
    reveal_strlit("sx");
    reveal_strlit("mdx");
    if events[i].paths@[j].file_name matches Some(n) && has_prefix(n@, ".env"@) {
    } else if has_suffix(path, ".jsx"@) {
        assert(has_suffix(".jsx"@, "sx"@)) by {
            assert(".jsx"@.skip(2) =~= "sx"@);
        }
        lemma_suffix_of_suffix(path, ".jsx"@, "sx"@);
    } else if has_suffix(path, ".tsx"@) {
        assert(has_suffix(".tsx"@, "sx"@)) by {
            assert(".tsx"@.skip(2) =~= "sx"@);
        }
        lemma_suffix_of_suffix(path, ".tsx"@, "sx"@);
    } else {
        assert(has_suffix(".mdx"@, "mdx"@)) by {
            assert(".mdx"@.skip(1) =~= "mdx"@);
        }
        lemma_suffix_of_suffix(path, ".mdx"@, "mdx"@);
    }
    let start = plan_events(events.take(i));
    let before_kind = kinds_step(start, e.kinds@.take(k), e.paths@);
    let kind = e.kinds@[k];
    let before_path = paths_step(before_kind, kind, e.paths@.take(j));
    let after_path = path_step(before_path, kind, e.paths@[j]);
    assert(after_path.reload_ssr_bundle);
    assert(e.paths@.take(j + 1).drop_last() =~= e.paths@.take(j));
    assert(paths_step(before_kind, kind, e.paths@.take(j + 1)) == after_path);
    lemma_paths_grow(before_kind, kind, e.paths@, j + 1);
    assert(e.kinds@.take(k + 1).drop_last() =~= e.kinds@.take(k));
    assert(kinds_step(start, e.kinds@.take(k + 1), e.paths@) == paths_step(before_kind, kind, e.paths@));
    lemma_kinds_grow(start, e.kinds@, e.paths@, k + 1);
    assert(events.take(i + 1).drop_last() =~= events.take(i));
    assert(plan_events(events.take(i + 1)) == kinds_step(start, e.kinds@, e.paths@));
    lemma_events_grow(events, i + 1);
    let plan = plan_events(events);
    assert(plan.reload_ssr_bundle);
    let r = restarts(plan);
    assert(r[r.len() - 1] == ProcessId::BuildReactSSRSrc);
}

/// Applies one event kind on one path to the plan.
fn apply_path(plan: &mut ReloadPlan, kind: FileEventKind, p: &EventPath)
    ensures
        final(plan)@ == path_step(old(plan)@, kind, *p),
{
    proof {
        reveal_strlit("rs");
    }
    let rust = match &p.extension {
        Some(e) => str_eq(e.as_str(), "rs"),
        None => false,
    };
    let ghost before = plan@;
    match kind {
        FileEventKind::Remove => {
            if rust {
                plan.remove_types.push(p.path.clone());
                plan.refresh_axum_source = true;
                assert(plan@.remove_types =~= before.remove_types.push(p.path@));
            }
        },
        FileEventKind::Modify => {
            if rust {
                plan.reload_rust_server = true;
                plan.refresh_types.push(p.path.clone());
                assert(plan@.refresh_types =~= before.refresh_types.push(p.path@));
            }
            let name = match &p.file_name {
                Some(n) => Some(n.as_str()),
                None => None,
            };
            if ssr_reload_needed(p.path.as_str(), name) {
                plan.reload_ssr_bundle = true;
            }
        },
        FileEventKind::Other => {},
    }
}

/// What a batch of file events asks to refresh, rebuild and restart.
pub fn plan_reload(events: &Vec<WatchEvent>) -> (res: ReloadPlan)
    ensures
        res@ == plan_events(events@),
{
    let mut plan = ReloadPlan {
        refresh_types: Vec::new(),
        remove_types: Vec::new(),
        reload_rust_server: false,
        refresh_axum_source: false,
        reload_ssr_bundle: false,
    };
    assert(views(plan.refresh_types@) =~= Seq::<Seq<char>>::empty());
    assert(views(plan.remove_types@) =~= Seq::<Seq<char>>::empty());
    assert(events@.take(0) =~= Seq::<WatchEvent>::empty());
    for i in 0..events.len()
        invariant
            plan@ == plan_events(events@.take(i as int)),
    {
        let ev = &events[i];
        let ghost start = plan@;
        assert(ev.kinds@.take(0) =~= Seq::<FileEventKind>::empty());
        for k in 0..ev.kinds.len()
            invariant
                plan@ == kinds_step(start, ev.kinds@.take(k as int), ev.paths@),
        {
            let kind = ev.kinds[k];
            let ghost mid = plan@;
            assert(ev.paths@.take(0) =~= Seq::<EventPath>::empty());
            for j in 0..ev.paths.len()
                invariant
                    plan@ == paths_step(mid, kind, ev.paths@.take(j as int)),
            {
                apply_path(&mut plan, kind, &ev.paths[j]);
                assert(ev.paths@.take(j + 1).drop_last() =~= ev.paths@.take(j as int));
                assert(ev.paths@.take(j + 1).last() == ev.paths@[j as int]);
            }
            assert(ev.paths@.take(ev.paths@.len() as int) =~= ev.paths@);
            assert(ev.kinds@.take(k + 1).drop_last() =~= ev.kinds@.take(k as int));
            assert(ev.kinds@.take(k + 1).last() == kind);
        }
        assert(ev.kinds@.take(ev.kinds@.len() as int) =~= ev.kinds@);
        assert(events@.take(i + 1).drop_last() =~= events@.take(i as int));
        assert(events@.take(i + 1).last() == *ev);
    }
    assert(events@.take(events@.len() as int) =~= events@);
    plan
}

/// The processes that the plan restarts, in order.
pub fn processes_to_restart(plan: &ReloadPlan) -> (res: Vec<ProcessId>)
    ensures
        res@ == restarts(plan@),
{
    let mut res: Vec<ProcessId> = Vec::new();
    if plan.reload_rust_server || plan.refresh_axum_source {
        res.push(ProcessId::RunRustDevServer);
    }
    if plan.reload_ssr_bundle {
        res.push(ProcessId::BuildReactSSRSrc);
    }
    assert(res@ =~= restarts(plan@));
    res
}

/// What the watcher does with a batch of events.
pub enum WatchStep {
    /// Stop every process and quit.
    Quit,
    /// Carry out the plan.
    Reload(ReloadPlan),
}

/// What the watcher does with a batch: an interrupt stops everything;
/// otherwise the batch's plan is carried out.
pub fn on_action(interrupted: bool, events: &Vec<WatchEvent>) -> (res: WatchStep)
    ensures
        interrupted ==> res is Quit,
        !interrupted ==> (res matches WatchStep::Reload(plan) && plan@ == plan_events(events@)),
{
    if interrupted {
        WatchStep::Quit
    } else {
        WatchStep::Reload(plan_reload(events))
    }
}

} // verus!
