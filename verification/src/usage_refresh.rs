//! When to read the usage transcripts again.
//!
//! Changed transcripts are gathered until the watcher has been quiet for a while,
//! and then read together. Since the watcher can coalesce and drop events, a rare
//! reconciliation reads all of them. A path is known here by a number that the
//! host has given it.

use std::collections::HashSet;

use vstd::prelude::*;

verus! {

/// How long the watcher has to be quiet before a refresh, in milliseconds.
pub const USAGE_REFRESH_DEBOUNCE: u64 = 2_000;

/// How often everything is read again, in milliseconds.
pub const USAGE_RECONCILE_INTERVAL: u64 = 1_800_000;

/// What the host reports.
#[derive(Clone, Debug, PartialEq, Eq)]
pub enum UsageEvent {
    /// The watcher saw these paths change.
    Changed(Vec<u64>),
    /// The watcher lost track of what changed.
    Reconcile,
    /// The watcher has ended.
    WatcherEnded,
    /// The deadline of the gathered changes was awaited.
    Deadline,
    /// It is time for the regular reconciliation.
    ReconcileTick,
}

/// What the host is to do.
#[derive(Clone, Debug, PartialEq, Eq)]
pub enum UsageAction {
    Wait,
    /// Read these paths again.
    RefreshPaths(Vec<u64>),
    /// Read everything again.
    RefreshAll,
}

/// What a `UsageEvent` stands for.
pub enum Report {
    Changed(Set<u64>),
    LostTrack,
    Deadline,
    ReconcileTick,
}

/// What a `UsageAction` stands for.
pub enum Refresh {
    Nothing,
    Paths(Set<u64>),
    All,
}

impl View for UsageEvent {
    type V = Report;

    open spec fn view(&self) -> Report {
        match *self {
            UsageEvent::Changed(paths) => Report::Changed(paths@.to_set()),
            UsageEvent::Reconcile => Report::LostTrack,
            UsageEvent::WatcherEnded => Report::LostTrack,
            UsageEvent::Deadline => Report::Deadline,
            UsageEvent::ReconcileTick => Report::ReconcileTick,
        }
    }
}

impl View for UsageAction {
    type V = Refresh;

    open spec fn view(&self) -> Refresh {
        match *self {
            UsageAction::Wait => Refresh::Nothing,
            UsageAction::RefreshPaths(paths) => Refresh::Paths(paths@.to_set()),
            UsageAction::RefreshAll => Refresh::All,
        }
    }
}

/// The changes gathered so far: which paths, whether some are unknown, and when
/// they are to be read.
#[verifier::ext_equal]
pub struct Gathered {
    pub paths: Set<u64>,
    pub reconcile: bool,
    pub due: Option<u64>,
}

impl Gathered {
    pub open spec fn nothing() -> Gathered {
        Gathered { paths: Set::empty(), reconcile: false, due: None }
    }

    /// The deadline has come at time `now`.
    pub open spec fn is_due(self, now: u64) -> bool {
        self.due matches Some(due) && due <= now
    }

    /// What is gathered after `report` came at time `now`. What the watcher says
    /// puts the deadline off; a refresh leaves nothing.
    pub open spec fn next(self, report: Report, now: u64) -> Gathered {
        match report {
            Report::Changed(paths) => Gathered {
                paths: self.paths.union(paths),
                reconcile: self.reconcile,
                due: Some((now + USAGE_REFRESH_DEBOUNCE) as u64),
            },
            Report::LostTrack => Gathered {
                paths: self.paths,
                reconcile: true,
                due: Some((now + USAGE_REFRESH_DEBOUNCE) as u64),
            },
            Report::Deadline => if self.is_due(now) {
                Gathered::nothing()
            } else {
                self
            },
            Report::ReconcileTick => Gathered::nothing(),
        }
    }

    /// What is to be read when `report` comes at time `now`: the gathered paths
    /// once they are due, and everything where some are unknown or it is time for
    /// the regular reconciliation.
    pub open spec fn refresh(self, report: Report, now: u64) -> Refresh {
        match report {
            Report::Changed(_) | Report::LostTrack => Refresh::Nothing,
            Report::Deadline => if !self.is_due(now) {
                Refresh::Nothing
            } else if self.reconcile {
                Refresh::All
            } else {
                Refresh::Paths(self.paths)
            },
            Report::ReconcileTick => Refresh::All,
        }
    }
}

/// The state of the refresh loop.
#[derive(Debug)]
pub struct UsageRefresh {
    invalidated: HashSet<u64>,
    reconcile: bool,
    refresh_due: Option<u64>,
}

impl View for UsageRefresh {
    type V = Gathered;

    closed spec fn view(&self) -> Gathered {
        Gathered {
            paths: self.invalidated@,
            reconcile: self.reconcile,
            due: self.refresh_due,
        }
    }
}

impl Default for UsageRefresh {
    fn default() -> (state: UsageRefresh)
        ensures
            state@ == Gathered::nothing(),
    {
        UsageRefresh { invalidated: HashSet::new(), reconcile: false, refresh_due: None }
    }
}

/// The paths that a set holds, each once, in no particular order.
fn listed(paths: &HashSet<u64>) -> (list: Vec<u64>)
    ensures
        list@.to_set() == paths@,
        list@.no_duplicates(),
{
    let mut list: Vec<u64> = Vec::new();
    for path in walk: paths.iter()
        invariant
            list@ == walk.seq().unref().take(walk.index()),
            walk.index() == walk.seq().len() ==> list@ == walk.seq().unref(),
            walk.seq().unref().to_set() == paths@,
            walk.seq().no_duplicates(),
    {
        list.push(*path);
    }
    list
}

impl UsageRefresh {
    /// When the gathered changes are to be read, if there are any.
    pub fn refresh_due(&self) -> (due: Option<u64>)
        ensures
            due == self@.due,
    {
        self.refresh_due
    }

    /// Takes up what the host reports at time `now`, in milliseconds, and says what
    /// it is to do. No path is handed out twice in one refresh.
    pub fn handle(&mut self, event: UsageEvent, now: u64) -> (action: UsageAction)
        requires
            now + USAGE_REFRESH_DEBOUNCE <= u64::MAX,
        ensures
            final(self)@ == old(self)@.next(event@, now),
            action@ == old(self)@.refresh(event@, now),
            action matches UsageAction::RefreshPaths(paths) ==> paths@.no_duplicates(),
    {
        match event {
            UsageEvent::Changed(paths) => {
                self.gather(&paths);
                self.refresh_due = Some(now + USAGE_REFRESH_DEBOUNCE);
                UsageAction::Wait
            },
            UsageEvent::Reconcile | UsageEvent::WatcherEnded => {
                self.reconcile = true;
                self.refresh_due = Some(now + USAGE_REFRESH_DEBOUNCE);
                UsageAction::Wait
            },
            UsageEvent::Deadline => {
                let due: bool = match self.refresh_due {
                    Some(due) => due <= now,
                    None => false,
                };
                if !due {
                    return UsageAction::Wait;
                }
                let mut gathered = UsageRefresh::default();
                std::mem::swap(&mut gathered, self);
                if gathered.reconcile {
                    UsageAction::RefreshAll
                } else {
                    UsageAction::RefreshPaths(listed(&gathered.invalidated))
                }
            },
            UsageEvent::ReconcileTick => {
                *self = UsageRefresh::default();
                UsageAction::RefreshAll
            },
        }
    }

    fn gather(&mut self, paths: &Vec<u64>)
        ensures
            final(self)@ == (Gathered {
                paths: old(self)@.paths.union(paths@.to_set()),
                ..old(self)@
            }),
    {
        let ghost before = self.invalidated@;
        let mut i: usize = 0;
        proof {
            assert(before.union(paths@.take(0).to_set()) =~= before);
        }
        while i < paths.len()
            invariant
                i <= paths.len(),
                self.reconcile == old(self).reconcile,
                self.refresh_due == old(self).refresh_due,
                self.invalidated@ == before.union(paths@.take(i as int).to_set()),
            decreases paths.len() - i,
        {
            let path: u64 = paths[i];
            let ghost seen = paths@.take(i as int);
            self.invalidated.insert(path);
            proof {
                lemma_to_set_push(seen, path);
                assert(paths@.take(i + 1) =~= seen.push(path));
                assert(self.invalidated@ =~= before.union(paths@.take(i + 1).to_set()));
            }
            i = i + 1;
        }
        proof {
            assert(paths@.take(paths@.len() as int) =~= paths@);
        }
    }
}

proof fn lemma_to_set_push(items: Seq<u64>, item: u64)
    ensures
        items.push(item).to_set() == items.to_set().insert(item),
{
    let longer = items.push(item);
    assert forall|x: u64| longer.to_set().contains(x) <==> items.to_set().insert(item).contains(
        x,
    ) by {
        if items.contains(x) {
            let i = choose|i: int| 0 <= i < items.len() && items[i] == x;
            assert(longer[i] == x);
        }
        if x == item {
            assert(longer[items.len() as int] == x);
        }
        if longer.contains(x) && x != item {
            let i = choose|i: int| 0 <= i < longer.len() && longer[i] == x;
            assert(items[i] == x);
        }
    }
    assert(longer.to_set() =~= items.to_set().insert(item));
}

/// No change is lost: a gathered path stays gathered until a refresh that reads it,
/// and a loss of track until a refresh that reads everything.
pub proof fn law_no_change_is_lost(gathered: Gathered, report: Report, now: u64, path: u64)
    ensures
        gathered.paths.contains(path) ==> match gathered.refresh(report, now) {
            Refresh::Nothing => gathered.next(report, now).paths.contains(path),
            Refresh::Paths(paths) => paths.contains(path),
            Refresh::All => true,
        },
        gathered.reconcile ==> match gathered.refresh(report, now) {
            Refresh::Nothing => gathered.next(report, now).reconcile,
            Refresh::Paths(_) => false,
            Refresh::All => true,
        },
        report matches Report::Changed(paths) && paths.contains(path) ==> gathered.next(
            report,
            now,
        ).paths.contains(path),
{
}

/// Whatever the watcher reports puts the refresh off until it has been quiet for
/// the whole debounce time, and what is gathered always has a deadline.
pub proof fn law_refresh_waits_for_quiet(
    gathered: Gathered,
    report: Report,
    now: u64,
    later: u64,
)
    requires
        now + USAGE_REFRESH_DEBOUNCE <= u64::MAX,
        report is Changed || report is LostTrack,
    ensures
        gathered.refresh(report, now) is Nothing,
        gathered.next(report, now).is_due(later) <==> later >= now + USAGE_REFRESH_DEBOUNCE,
        gathered.next(report, now).refresh(Report::Deadline, later) is Nothing <==> later < now
            + USAGE_REFRESH_DEBOUNCE,
{
}

/// A refresh leaves nothing gathered and no deadline.
pub proof fn law_refresh_leaves_nothing(gathered: Gathered, report: Report, now: u64)
    ensures
        !(gathered.refresh(report, now) is Nothing) ==> gathered.next(report, now)
            == Gathered::nothing(),
{
}

/// Whatever has been gathered, and with nothing gathered as well, the regular
/// reconciliation reads everything; nothing else does but the deadline of changes of
/// which some are unknown.
pub proof fn law_everything_is_read_when_it_has_to_be(
    gathered: Gathered,
    report: Report,
    now: u64,
)
    ensures
        report is ReconcileTick ==> gathered.refresh(report, now) is All,
        report is Deadline && gathered.reconcile && (gathered.due matches Some(due) && due <= now)
            ==> gathered.refresh(report, now) is All,
        gathered.refresh(report, now) is All ==> report is ReconcileTick || (report is Deadline
            && gathered.reconcile),
{
}

/// When their deadline comes, exactly the gathered paths are read, unless some are
/// unknown. Before it comes nothing is read and nothing is forgotten.
pub proof fn law_the_gathered_paths_are_read(gathered: Gathered, now: u64)
    ensures
        (gathered.due matches Some(due) && due <= now) && !gathered.reconcile ==> gathered.refresh(
            Report::Deadline,
            now,
        ) == Refresh::Paths(gathered.paths),
        !(gathered.due matches Some(due) && due <= now) ==> gathered.refresh(Report::Deadline, now)
            is Nothing && gathered.next(Report::Deadline, now) == gathered,
{
}

/// A path is gathered exactly when it was or is reported as changed; track is lost
/// only by a report of that, and stays lost until a refresh.
pub proof fn law_only_what_is_reported_is_gathered(
    gathered: Gathered,
    paths: Set<u64>,
    now: u64,
    path: u64,
)
    ensures
        ({
            let changed = gathered.next(Report::Changed(paths), now);
            let lost = gathered.next(Report::LostTrack, now);
            &&& changed.paths.contains(path) <==> gathered.paths.contains(path) || paths.contains(
                path,
            )
            &&& changed.reconcile == gathered.reconcile
            &&& lost.paths == gathered.paths
            &&& lost.reconcile
        }),
        ({
            let nothing = Gathered::nothing();
            &&& !nothing.paths.contains(path)
            &&& !nothing.reconcile
            &&& nothing.due is None
        }),
{
}

/// A watcher that has ended has lost track as one that says so has; the other events
/// are reported as what they are, and an action asks for what its name says.
pub proof fn law_events_and_actions_mean_what_they_name(paths: Vec<u64>, path: u64)
    ensures
        UsageEvent::Changed(paths)@ matches Report::Changed(reported) && (reported.contains(path)
            <==> paths@.contains(path)),
        UsageEvent::Reconcile@ is LostTrack,
        UsageEvent::WatcherEnded@ is LostTrack,
        UsageEvent::Deadline@ is Deadline,
        UsageEvent::ReconcileTick@ is ReconcileTick,
        UsageAction::Wait@ is Nothing,
        UsageAction::RefreshAll@ is All,
        UsageAction::RefreshPaths(paths)@ matches Refresh::Paths(read) && (read.contains(path)
            <==> paths@.contains(path)),
{
}

} // verus!
