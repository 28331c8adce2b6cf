//! Loading every module of a directory: which entries are tried, in which
//! order, and what ends up in the registry.
//!
//! Listing the directory, loading a module and handing its object to the host
//! are the caller's work. What is decided here is driven by the caller in
//! turns: [`ModScan::next_action`] says what to do next, and
//! [`ModScan::record`] takes what came of it.

use crate::dyn_api::{created_by, RustDynPlugin, CREATE_RDYN_SYM_NAME};
use std::ops::Deref;
use vstd::prelude::*;

verus! {

/// What the scan reads of one entry of the directory.
pub enum ModEntry {
    /// The enumeration failed on this entry.
    Unreadable,
    /// A directory, a symbolic link, a special file, or an entry whose kind
    /// could not be told.
    NotAFile,
    /// A regular file, with its path as text where the path has such a form.
    File { path: Option<String> },
}

impl ModEntry {
    /// The path under which the entry is tried as a module: that of a regular
    /// file whose path is text. Every other entry is passed over.
    pub open spec fn candidate(self) -> Option<Seq<char>> {
        match self {
            ModEntry::File { path: Some(path) } => Some(path@),
            _ => None,
        }
    }
}

/// The entries that a listing holds. A directory that could not be listed
/// counts as one without entries.
pub open spec fn listed(listing: Option<Vec<ModEntry>>) -> Seq<ModEntry> {
    match listing {
        Some(entries) => entries@,
        None => Seq::empty(),
    }
}

/// The paths that are tried as modules: the candidates among `entries`, in the
/// order of the entries.
pub open spec fn candidates_of(entries: Seq<ModEntry>) -> Seq<Seq<char>>
    decreases entries.len(),
{
    if entries.len() == 0 {
        Seq::empty()
    } else {
        let earlier = candidates_of(entries.drop_last());
        match entries.last().candidate() {
            Some(path) => earlier.push(path),
            None => earlier,
        }
    }
}

/// The text of each path.
pub open spec fn texts(paths: Seq<String>) -> Seq<Seq<char>> {
    paths.map_values(|path: String| path@)
}

/// What a run of attempts leaves behind: the handles of those that gave one,
/// in the order of the attempts.
pub open spec fn successes<H>(outcomes: Seq<Option<H>>) -> Seq<H>
    decreases outcomes.len(),
{
    if outcomes.len() == 0 {
        Seq::empty()
    } else {
        let earlier = successes(outcomes.drop_last());
        match outcomes.last() {
            Some(handle) => earlier.push(handle),
            None => earlier,
        }
    }
}

/// Picks the paths to try out of a listing: regular files whose path is text,
/// in the order in which the directory gave them. Nothing is sorted.
pub fn candidate_paths(listing: &Option<Vec<ModEntry>>) -> (paths: Vec<String>)
    ensures
        texts(paths@) == candidates_of(listed(*listing)),
{
    let mut paths: Vec<String> = Vec::new();
    match listing {
        None => {
            assert(texts(paths@) =~= candidates_of(listed(*listing)));
        },
        Some(entries) => {
            let mut i: usize = 0;
            assert(entries@.take(0) =~= Seq::<ModEntry>::empty());
            assert(texts(paths@) =~= candidates_of(entries@.take(0)));
            while i < entries.len()
                invariant
                    i <= entries.len(),
                    texts(paths@) == candidates_of(entries@.take(i as int)),
                decreases entries.len() - i,
            {
                let ghost before = paths@;
                assert(entries@.take(i + 1).drop_last() =~= entries@.take(i as int));
                match &entries[i] {
                    ModEntry::File { path: Some(path) } => {
                        paths.push(path.clone());
                        assert(texts(paths@) =~= texts(before).push(path@));
                    },
                    _ => {},
                }
                i += 1;
            }
            assert(entries@.take(i as int) =~= entries@);
        },
    }
    paths
}

/// The plugins that a scan loaded, in the order in which they were loaded and
/// handed to the host.
///
/// The host keeps the registry for as long as it lives, which keeps every
/// image mapped. Handles are only ever added, by the scan.
pub struct ModLoaderData<P> {
    loaded_plugins: Vec<RustDynPlugin<P>>,
}

impl<P> View for ModLoaderData<P> {
    type V = Seq<RustDynPlugin<P>>;

    closed spec fn view(&self) -> Seq<RustDynPlugin<P>> {
        self.loaded_plugins@
    }
}

impl<P> Default for ModLoaderData<P> {
    /// The registry of a scan that loaded nothing.
    fn default() -> (data: Self)
        ensures
            data@ == Seq::<RustDynPlugin<P>>::empty(),
    {
        ModLoaderData { loaded_plugins: Vec::new() }
    }
}

impl<P> Deref for ModLoaderData<P> {
    type Target = Vec<RustDynPlugin<P>>;

    /// The handles, for reading.
    fn deref(&self) -> (plugins: &Vec<RustDynPlugin<P>>)
        ensures
            plugins@ == self@,
    {
        &self.loaded_plugins
    }
}

/// What the caller of a scan has to do next.
pub enum ScanAction {
    /// Load the module at this path and hand its object to the host, as
    /// [`load_mod`] does; then report with [`ModScan::record`].
    Load(String),
    /// Nothing is left to try: take the registry with [`ModScan::finish`].
    Finish,
}

impl View for ScanAction {
    type V = Option<Seq<char>>;

    /// The path to load, or `None` for [`ScanAction::Finish`].
    open spec fn view(&self) -> Option<Seq<char>> {
        match self {
            ScanAction::Load(path) => Some(path@),
            ScanAction::Finish => None,
        }
    }
}

/// The state of a scan, as contracts see it.
pub struct ScanView<P> {
    /// The paths to try, in the order in which they are tried.
    pub candidates: Seq<Seq<char>>,
    /// How many of them have been tried and reported.
    pub settled: nat,
    /// Whether the next of them was given out and has not been reported yet.
    pub awaiting: bool,
    /// The handles of those that loaded, in the order of their loading.
    pub loaded: Seq<RustDynPlugin<P>>,
}

impl<P> ScanView<P> {
    /// A scan of `candidates` on which nothing has happened yet.
    pub open spec fn initial(candidates: Seq<Seq<char>>) -> Self {
        ScanView { candidates, settled: 0, awaiting: false, loaded: Seq::empty() }
    }

    /// What holds of every scan.
    pub open spec fn wf(self) -> bool {
        &&& self.settled <= self.candidates.len()
        &&& self.awaiting ==> self.settled < self.candidates.len()
        &&& self.loaded.len() <= self.settled
    }

    /// What is to be done in this state: load the first candidate that has not
    /// been reported, or finish when there is none.
    pub open spec fn action(self) -> Option<Seq<char>> {
        if self.settled < self.candidates.len() {
            Some(self.candidates[self.settled as int])
        } else {
            None
        }
    }

    /// The state after the action was given out.
    pub open spec fn issue(self) -> Self {
        ScanView {
            candidates: self.candidates,
            settled: self.settled,
            awaiting: self.settled < self.candidates.len(),
            loaded: self.loaded,
        }
    }

    /// The state after `outcome` was reported. While no report is awaited, a
    /// report changes nothing.
    pub open spec fn record(self, outcome: Option<RustDynPlugin<P>>) -> Self {
        if self.awaiting && self.settled < self.candidates.len() {
            ScanView {
                candidates: self.candidates,
                settled: self.settled + 1,
                awaiting: false,
                loaded: match outcome {
                    Some(handle) => self.loaded.push(handle),
                    None => self.loaded,
                },
            }
        } else {
            self
        }
    }

    /// The state after one turn for each of `outcomes`: the action is given
    /// out and the outcome reported, one candidate after the other.
    pub open spec fn after(self, outcomes: Seq<Option<RustDynPlugin<P>>>) -> Self
        decreases outcomes.len(),
    {
        if outcomes.len() == 0 {
            self
        } else {
            self.after(outcomes.drop_last()).issue().record(outcomes.last())
        }
    }
}

/// A scan in progress: the candidates of one directory, how far the caller has
/// come with them, and the registry so far.
pub struct ModScan<P> {
    paths: Vec<String>,
    settled: usize,
    awaiting: bool,
    data: ModLoaderData<P>,
}

impl<P> View for ModScan<P> {
    type V = ScanView<P>;

    closed spec fn view(&self) -> ScanView<P> {
        ScanView {
            candidates: texts(self.paths@),
            settled: self.settled as nat,
            awaiting: self.awaiting,
            loaded: self.data@,
        }
    }
}

impl<P> ModScan<P> {
    /// Starts the scan of a directory from its listing, `None` where the
    /// directory could not be listed. Such a directory is scanned as an empty
    /// one.
    pub fn new(listing: &Option<Vec<ModEntry>>) -> (scan: Self)
        ensures
            scan@ == ScanView::<P>::initial(candidates_of(listed(*listing))),
            scan@.wf(),
    {
        ModScan {
            paths: candidate_paths(listing),
            settled: 0,
            awaiting: false,
            data: ModLoaderData::default(),
        }
    }

    /// Says what to do next: load the first candidate that has not been
    /// reported yet, or finish. Candidates come in the order of the listing,
    /// and none is given out before its predecessor was reported. Asking again
    /// without reporting gives the same answer.
    pub fn next_action(&mut self) -> (action: ScanAction)
        ensures
            action@ == old(self)@.action(),
            final(self)@ == old(self)@.issue(),
            old(self)@.wf() ==> final(self)@.wf(),
    {
        if self.settled < self.paths.len() {
            self.awaiting = true;
            ScanAction::Load(self.paths[self.settled].clone())
        } else {
            self.awaiting = false;
            ScanAction::Finish
        }
    }

    /// Takes what came of the last [`ScanAction::Load`]: the handle of the
    /// module, loaded and handed to the host, or `None` where it did not load.
    /// A handle is added to the end of the registry; a failure is passed over
    /// and the scan goes on.
    ///
    /// A report that was not asked for is ignored.
    pub fn record(&mut self, outcome: Option<RustDynPlugin<P>>)
        ensures
            final(self)@ == old(self)@.record(outcome),
            old(self)@.wf() ==> final(self)@.wf(),
    {
        if self.awaiting && self.settled < self.paths.len() {
            self.awaiting = false;
            self.settled = self.settled + 1;
            match outcome {
                Some(handle) => {
                    self.data.loaded_plugins.push(handle);
                },
                None => {},
            }
        }
    }

    /// Ends the scan and hands over the registry: the modules that loaded, in
    /// the order in which they were reported.
    pub fn finish(self) -> (data: ModLoaderData<P>)
        ensures
            data@ == self@.loaded,
    {
        self.data
    }
}

/// What [`load_mod`] does with the outcome of loading: a plugin that loaded is
/// handed to `integrate`, once, and then returned; where nothing loaded,
/// `integrate` is not called.
pub fn integrate_loaded<P, G>(loaded: Option<RustDynPlugin<P>>, integrate: G) -> (result: Option<
    RustDynPlugin<P>,
>) where G: FnOnce(&P)
    requires
        forall|plugin: &P| call_requires(integrate, (plugin,)),
    ensures
        result == loaded,
        loaded matches Some(handle) ==> call_ensures(integrate, (&handle.object(),), ()),
{
    match loaded {
        Some(handle) => {
            integrate(handle.deref());
            Some(handle)
        },
        None => None,
    }
}

/// Loads the module at `mod_path` into the host.
///
/// The plugin is loaded as [`RustDynPlugin::load_from`] does, with `create`
/// for the entry point. If it loads, its object is handed to `integrate`, which
/// registers it with the host, before this returns.
pub fn load_mod<P, F, G>(mod_path: &str, create: F, integrate: G) -> (loaded: Option<
    RustDynPlugin<P>,
>) where F: FnOnce(&libloading::Library, &[u8]) -> Option<P>, G: FnOnce(&P)
    requires
        forall|library: &libloading::Library, symbol: &[u8]|
            symbol@ == CREATE_RDYN_SYM_NAME@ ==> call_requires(create, (library, symbol)),
        forall|plugin: &P| call_requires(integrate, (plugin,)),
    ensures
        loaded matches Some(handle) ==> created_by(create, handle) && call_ensures(
            integrate,
            (&handle.object(),),
            (),
        ),
{
    integrate_loaded(RustDynPlugin::load_from(mod_path, create), integrate)
}

/// Whether `outcome` is what `load` can answer when it is handed the path
/// `text`.
pub open spec fn loads_as<P, L>(load: L, text: Seq<char>, outcome: Option<RustDynPlugin<P>>) -> bool where
    L: FnMut(&str) -> Option<RustDynPlugin<P>>,
 {
    exists|path: &str| path@ == text && #[trigger] call_ensures(load, (path,), outcome)
}

/// Whether `outcomes` are what a scan of `candidates` with `load` can meet
/// with: one outcome for each candidate, each of them an answer of `load` to
/// that candidate.
pub open spec fn scanned_with<P, L>(
    load: L,
    candidates: Seq<Seq<char>>,
    outcomes: Seq<Option<RustDynPlugin<P>>>,
) -> bool where L: FnMut(&str) -> Option<RustDynPlugin<P>> {
    &&& outcomes.len() == candidates.len()
    &&& forall|i: int|
        0 <= i < outcomes.len() ==> #[trigger] loads_as(load, candidates[i], outcomes[i])
}

/// Loads all modules found in a directory, given its listing.
///
/// `load` is called for each candidate of the listing, in the order of the
/// listing, one call after the other has returned. It has to load the module
/// at the path into the host, as [`load_mod`] does, and to answer with its
/// handle, or with `None` where it does not load. The registry holds the
/// handles that `load` answered with, in that order; a candidate that does not
/// load is passed over and the scan goes on. A directory that could not be
/// listed gives an empty registry.
pub fn load_mods<P, L>(listing: &Option<Vec<ModEntry>>, load: L) -> (data: ModLoaderData<P>) where
    L: FnMut(&str) -> Option<RustDynPlugin<P>>,

    requires
        forall|path: &str| call_requires(load, (path,)),
    ensures
        exists|outcomes: Seq<Option<RustDynPlugin<P>>>|
            #[trigger] scanned_with(load, candidates_of(listed(*listing)), outcomes) && data@
                == successes(outcomes),
{
    let ghost given = load;
    let mut load = load;
    let mut scan: ModScan<P> = ModScan::new(listing);
    let ghost candidates = candidates_of(listed(*listing));
    let ghost mut outcomes: Seq<Option<RustDynPlugin<P>>> = Seq::empty();
    loop
        invariant
            load == given,
            forall|path: &str| call_requires(load, (path,)),
            outcomes.len() <= candidates.len(),
            scan@ == ScanView::<P>::initial(candidates).after(outcomes),
            forall|i: int|
                0 <= i < outcomes.len() ==> #[trigger] loads_as(load, candidates[i], outcomes[i]),
        ensures
            load == given,
            outcomes.len() == candidates.len(),
            scan@ == ScanView::<P>::initial(candidates).after(outcomes),
            forall|i: int|
                0 <= i < outcomes.len() ==> #[trigger] loads_as(load, candidates[i], outcomes[i]),
        decreases candidates.len() - outcomes.len(),
    {
        proof {
            lemma_scan_after(candidates, outcomes);
        }
        match scan.next_action() {
            ScanAction::Load(path) => {
                let outcome = load(path.as_str());
                proof {
                    assert(loads_as(load, candidates[outcomes.len() as int], outcome));
                    let earlier = outcomes;
                    outcomes = outcomes.push(outcome);
                    assert(outcomes.drop_last() =~= earlier);
                }
                scan.record(outcome);
            },
            ScanAction::Finish => {
                break ;
            },
        }
    }
    proof {
        lemma_scan_after(candidates, outcomes);
        assert(scanned_with(given, candidates, outcomes));
    }
    scan.finish()
}

/// Trying one run of paths after another leaves what each of them leaves, one
/// after the other: whether an attempt gives a handle has no effect on the
/// others, and the handles keep the order of the attempts.
pub proof fn lemma_successes_concat<H>(first: Seq<Option<H>>, second: Seq<Option<H>>)
    ensures
        successes(first + second) == successes(first) + successes(second),
        successes(first).len() <= first.len(),
    decreases second.len(),
{
    if second.len() == 0 {
        assert(first + second =~= first);
        assert(successes(first) + successes(second) =~= successes(first));
        lemma_successes_len(first);
    } else {
        lemma_successes_concat(first, second.drop_last());
        assert((first + second).drop_last() =~= first + second.drop_last());
        assert((first + second).last() == second.last());
        assert(successes(first + second) =~= successes(first) + successes(second));
    }
}

/// No more handles than attempts.
proof fn lemma_successes_len<H>(outcomes: Seq<Option<H>>)
    ensures
        successes(outcomes).len() <= outcomes.len(),
    decreases outcomes.len(),
{
    if outcomes.len() > 0 {
        lemma_successes_len(outcomes.drop_last());
    }
}

/// The candidates of a listing are those of its first part followed by those
/// of the rest: entries that are passed over displace nothing, and the
/// candidates keep the order of the listing.
pub proof fn lemma_candidates_concat(first: Seq<ModEntry>, second: Seq<ModEntry>)
    ensures
        candidates_of(first + second) == candidates_of(first) + candidates_of(second),
    decreases second.len(),
{
    if second.len() == 0 {
        assert(first + second =~= first);
        assert(candidates_of(first) + candidates_of(second) =~= candidates_of(first));
    } else {
        lemma_candidates_concat(first, second.drop_last());
        assert((first + second).drop_last() =~= first + second.drop_last());
        assert((first + second).last() == second.last());
        assert(candidates_of(first + second) =~= candidates_of(first) + candidates_of(second));
    }
}

/// Giving out an action and taking a report keep a scan well formed.
pub proof fn lemma_turn_keeps_wf<P>(scan: ScanView<P>, outcome: Option<RustDynPlugin<P>>)
    requires
        scan.wf(),
    ensures
        scan.issue().wf(),
        scan.record(outcome).wf(),
        scan.issue().record(outcome).wf(),
{
}

/// Where a scan stands after the first candidates were tried, one turn each:
/// as many candidates are settled as outcomes were reported, no report is
/// awaited, and the registry holds the handles among those outcomes, in their
/// order.
pub proof fn lemma_scan_after<P>(
    candidates: Seq<Seq<char>>,
    outcomes: Seq<Option<RustDynPlugin<P>>>,
)
    requires
        outcomes.len() <= candidates.len(),
    ensures
        ScanView::<P>::initial(candidates).after(outcomes) == (ScanView {
            candidates,
            settled: outcomes.len(),
            awaiting: false,
            loaded: successes(outcomes),
        }),
        ScanView::<P>::initial(candidates).after(outcomes).wf(),
    decreases outcomes.len(),
{
    if outcomes.len() > 0 {
        lemma_scan_after(candidates, outcomes.drop_last());
        lemma_successes_len(outcomes.drop_last());
    }
    lemma_successes_len(outcomes);
}

/// A scan that is driven to its end yields exactly the modules that loaded.
///
/// With one outcome for each candidate, the scan asks for nothing more, and
/// its registry holds one handle for each outcome that is a handle, in the
/// order of the candidates. How many candidates failed, and where among the
/// others, makes no difference.
pub proof fn lemma_scan_collects_the_loaded<P>(
    candidates: Seq<Seq<char>>,
    outcomes: Seq<Option<RustDynPlugin<P>>>,
)
    requires
        outcomes.len() == candidates.len(),
    ensures
        ScanView::<P>::initial(candidates).after(outcomes).action() is None,
        ScanView::<P>::initial(candidates).after(outcomes).loaded == successes(outcomes),
{
    lemma_scan_after(candidates, outcomes);
}

/// Modules are loaded in the order of the listing, one at a time.
///
/// The candidate at place `outcomes.len()` is given out in the state that the
/// reports on all candidates before it lead to, and in no other: by then each
/// of them that loaded has been handed to the host and stands in the registry.
pub proof fn lemma_scan_keeps_order<P>(
    candidates: Seq<Seq<char>>,
    outcomes: Seq<Option<RustDynPlugin<P>>>,
)
    requires
        outcomes.len() < candidates.len(),
    ensures
        ScanView::<P>::initial(candidates).after(outcomes).action() == Some(
            candidates[outcomes.len() as int],
        ),
        ScanView::<P>::initial(candidates).after(outcomes).loaded == successes(outcomes),
        ScanView::<P>::initial(candidates).after(outcomes).issue().awaiting,
{
    lemma_scan_after(candidates, outcomes);
}

/// A directory that cannot be listed is scanned as an empty one: the scan
/// finishes at once, and its registry is empty.
pub proof fn lemma_unlisted_directory_scans_empty<P>()
    ensures
        candidates_of(listed(None)) == Seq::<Seq<char>>::empty(),
        ScanView::<P>::initial(candidates_of(listed(None))).action() is None,
        ScanView::<P>::initial(candidates_of(listed(None))).loaded == Seq::<
            RustDynPlugin<P>,
        >::empty(),
{
}

} // verus!
