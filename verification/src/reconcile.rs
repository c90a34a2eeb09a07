//! Holding a playlist against what is on disk: which entries are there, which
//! are missing, and the repair of the missing ones, entry by entry.
//!
//! Nothing here touches a disk or a network. The caller says which entries it
//! found, fetches what it is asked to fetch, and says how that went.

use crate::lines::{join_lines, lemma_join_push};
use crate::m3u::{first_key, Item, ItemView, M3U};
use crate::number::{decimal, push_decimal};
use crate::text::{option_view, views};
use vstd::prelude::*;

pub mod laws;

verus! {

/// Why a run cannot start.
#[derive(Debug, PartialEq, Eq, Structural, Clone, Copy)]
pub enum ConfigurationError {
    /// A repair was asked for, but no server was named to fetch from.
    RepairWithoutServer,
    /// A playlist was to be written, but neither a file nor the standard
    /// output was named.
    NoDestination,
}

/// How the fetch of one entry went.
#[derive(Debug, PartialEq, Eq, Structural, Clone, Copy)]
pub enum FetchResult {
    /// The file was fetched and written.
    Created,
    /// The library could not be reached, or the transfer broke off; what was
    /// written of the file by then is left in its place.
    FetchFailure,
    /// The file or its directory could not be written.
    IOFailure,
}

/// How the repair of one missing entry ended.
#[derive(Debug, PartialEq, Eq, Structural, Clone, Copy)]
pub enum RepairOutcome {
    /// The entry is on disk now.
    Repaired,
    /// The entry has no key to fetch it by.
    UnresolvableEntry,
    /// The library could not be reached, or the transfer broke off; what was
    /// written of the file by then is left in its place.
    FetchFailure,
    /// The file or its directory could not be written.
    IOFailure,
}

/// What to fetch, and where to put it.
#[derive(Debug, PartialEq, Eq)]
pub struct RepairRequest {
    /// The key under which the library serves the part.
    pub key: String,
    /// The path of the entry, to be taken from the root of the playlist.
    pub path: String,
}

/// An entry that is still missing after its repair was tried.
#[derive(Debug, PartialEq, Eq)]
pub struct Failure {
    /// The path of the entry.
    pub path: String,
    /// Why it is still missing.
    pub reason: RepairOutcome,
}

/// The counts of a run, and the entries whose repair failed.
#[derive(Debug, PartialEq, Eq)]
pub struct Summary {
    /// The entries of the playlist.
    pub total: usize,
    /// Those that were on disk from the start.
    pub present: usize,
    /// Those that were not.
    pub missing: usize,
    /// The missing ones that were repaired.
    pub repaired: usize,
    /// The missing ones that are still missing.
    pub still_missing: usize,
    /// The entries whose repair was tried and failed, in playlist order.
    pub failures: Vec<Failure>,
}

/// The entries of a playlist, parted into those on disk and those missing,
/// and how far the repair of the missing ones has come.
#[derive(Debug)]
pub struct Reconciliation {
    present: Vec<Item>,
    missing: Vec<Item>,
    outcomes: Vec<RepairOutcome>,
}

/// The mathematical value of a `RepairRequest`.
pub struct RepairRequestView {
    pub key: Seq<char>,
    pub path: Seq<char>,
}

/// The mathematical value of a `Failure`.
pub struct FailureView {
    pub path: Seq<char>,
    pub reason: RepairOutcome,
}

/// The mathematical value of a `Reconciliation`.
pub struct ReconciliationView {
    /// The entries that were on disk, in playlist order.
    pub present: Seq<ItemView>,
    /// The entries that were not, in playlist order.
    pub missing: Seq<ItemView>,
    /// How the repair ended for the first so many of the missing entries.
    pub outcomes: Seq<RepairOutcome>,
}

impl View for RepairRequest {
    type V = RepairRequestView;

    open spec fn view(&self) -> RepairRequestView {
        RepairRequestView { key: self.key@, path: self.path@ }
    }
}

impl View for Failure {
    type V = FailureView;

    open spec fn view(&self) -> FailureView {
        FailureView { path: self.path@, reason: self.reason }
    }
}

impl View for Reconciliation {
    type V = ReconciliationView;

    closed spec fn view(&self) -> ReconciliationView {
        ReconciliationView {
            present: views(self.present@),
            missing: views(self.missing@),
            outcomes: self.outcomes@,
        }
    }
}

/// The leave to repair. There is one only where a repair was asked for and
/// a server was named to fetch from; it names that server.
#[derive(Debug, PartialEq, Eq)]
pub struct RepairPermit {
    server: String,
}

impl View for RepairPermit {
    type V = Seq<char>;

    /// The server that the permit names.
    closed spec fn view(&self) -> Seq<char> {
        self.server@
    }
}

impl RepairPermit {
    /// The server to fetch from.
    pub fn server(&self) -> (server: &String)
        ensures
            server@ == self@,
    {
        &self.server
    }
}

/// Whether a repair is to be made, and from which server. One that is not
/// asked for is not made; one that is asked for needs a server.
pub open spec fn repair_allowed_spec(fix: bool, server: Option<Seq<char>>) -> Result<
    Option<Seq<char>>,
    ConfigurationError,
> {
    if !fix {
        Ok(None)
    } else {
        match server {
            Some(server) => Ok(Some(server)),
            None => Err(ConfigurationError::RepairWithoutServer),
        }
    }
}

/// The leave to repair, given whether a repair was asked for and the server
/// that was named. Asking for one without a server is an error, known before
/// any entry is looked at. Without a permit no repair can be made.
pub fn repair_allowed(fix: bool, server: &Option<String>) -> (allowed: Result<
    Option<RepairPermit>,
    ConfigurationError,
>)
    ensures
        match allowed {
            Ok(Some(permit)) => repair_allowed_spec(fix, option_view(*server)) == Ok::<
                Option<Seq<char>>,
                ConfigurationError,
            >(Some(permit@)),
            Ok(None) => repair_allowed_spec(fix, option_view(*server)) == Ok::<
                Option<Seq<char>>,
                ConfigurationError,
            >(None),
            Err(error) => repair_allowed_spec(fix, option_view(*server)) == Err::<
                Option<Seq<char>>,
                ConfigurationError,
            >(error),
        },
{
    match (server, fix) {
        (Some(server), true) => Ok(Some(RepairPermit { server: server.clone() })),
        (None, true) => Err(ConfigurationError::RepairWithoutServer),
        _ => Ok(None),
    }
}

/// Whether the entry at `i` was found on disk. An entry that `on_disk` says
/// nothing of was not.
pub open spec fn found(on_disk: Seq<bool>, i: int) -> bool {
    0 <= i < on_disk.len() && on_disk[i]
}

/// The indices below `n`, in rising order, of the entries that were found
/// (`want`), or of those that were not (`!want`).
pub open spec fn positions(on_disk: Seq<bool>, n: nat, want: bool) -> Seq<int>
    decreases n,
{
    if n == 0 {
        Seq::empty()
    } else if found(on_disk, n - 1) == want {
        positions(on_disk, (n - 1) as nat, want).push(n - 1)
    } else {
        positions(on_disk, (n - 1) as nat, want)
    }
}

/// The entries of `tracks` that were found (`want`), or those that were not,
/// in the order of `tracks`.
pub open spec fn pick(tracks: Seq<ItemView>, on_disk: Seq<bool>, want: bool) -> Seq<ItemView> {
    let at = positions(on_disk, tracks.len(), want);
    Seq::new(at.len(), |k: int| tracks[at[k]])
}

/// The positions are indices below `n`, rise strictly, hold exactly the
/// indices whose entry was found as `want` says, and are as many as those.
pub proof fn lemma_positions(on_disk: Seq<bool>, n: nat, want: bool)
    ensures
        positions(on_disk, n, want).len() <= n,
        forall|k: int|
            0 <= k < positions(on_disk, n, want).len() ==> {
                &&& 0 <= #[trigger] positions(on_disk, n, want)[k] < n
                &&& found(on_disk, positions(on_disk, n, want)[k]) == want
            },
        forall|j: int, k: int|
            0 <= j < k < positions(on_disk, n, want).len() ==> positions(on_disk, n, want)[j]
                < positions(on_disk, n, want)[k],
        forall|i: int|
            0 <= i < n && found(on_disk, i) == want ==> positions(on_disk, n, want).contains(i),
    decreases n,
{
    if n > 0 {
        let m = (n - 1) as nat;
        lemma_positions(on_disk, m, want);
        let shorter = positions(on_disk, m, want);
        let all = positions(on_disk, n, want);
        if found(on_disk, n - 1) == want {
            assert(all[all.len() - 1] == n - 1);
            assert forall|i: int| 0 <= i < n && found(on_disk, i) == want implies all.contains(
                i,
            ) by {
                if i < n - 1 {
                    let k = choose|k: int| 0 <= k < shorter.len() && shorter[k] == i;
                    assert(all[k] == i);
                }
            }
        }
    }
}

/// Every entry is either among those found or among those missing, never
/// both, and the two lists together are as long as the playlist.
pub proof fn lemma_positions_partition(on_disk: Seq<bool>, n: nat)
    ensures
        positions(on_disk, n, true).len() + positions(on_disk, n, false).len() == n,
        forall|i: int|
            0 <= i < n ==> (positions(on_disk, n, true).contains(i) != positions(
                on_disk,
                n,
                false,
            ).contains(i)),
    decreases n,
{
    lemma_positions(on_disk, n, true);
    lemma_positions(on_disk, n, false);
    if n > 0 {
        lemma_positions_partition(on_disk, (n - 1) as nat);
    }
    let yes = positions(on_disk, n, true);
    let no = positions(on_disk, n, false);
    assert forall|i: int| 0 <= i < n implies (yes.contains(i) != no.contains(i)) by {
        if found(on_disk, i) {
            assert(yes.contains(i));
            assert(!no.contains(i));
        } else {
            assert(no.contains(i));
            assert(!yes.contains(i));
        }
    }
}

/// A reconciliation parts the playlist. The entries found and the entries
/// missing are together as many as the playlist has; every index of the
/// playlist is the place of exactly one entry of exactly one of the two lists;
/// an entry is among those found exactly when it was found; and each list
/// holds its entries in the order of the playlist.
pub proof fn lemma_partition(tracks: Seq<ItemView>, on_disk: Seq<bool>)
    ensures
        ({
            let n = tracks.len();
            let present = pick(tracks, on_disk, true);
            let missing = pick(tracks, on_disk, false);
            let present_at = positions(on_disk, n, true);
            let missing_at = positions(on_disk, n, false);
            &&& present.len() + missing.len() == n
            &&& present.len() == present_at.len()
            &&& missing.len() == missing_at.len()
            &&& forall|i: int| 0 <= i < n ==> (present_at.contains(i) != missing_at.contains(i))
            &&& forall|i: int| 0 <= i < n ==> (present_at.contains(i) == found(on_disk, i))
            &&& forall|k: int|
                0 <= k < present.len() ==> 0 <= #[trigger] present_at[k] < n && present[k]
                    == tracks[present_at[k]]
            &&& forall|k: int|
                0 <= k < missing.len() ==> 0 <= #[trigger] missing_at[k] < n && missing[k]
                    == tracks[missing_at[k]]
            &&& forall|j: int, k: int|
                0 <= j < k < present_at.len() ==> present_at[j] < present_at[k]
            &&& forall|j: int, k: int|
                0 <= j < k < missing_at.len() ==> missing_at[j] < missing_at[k]
        }),
{
    let n = tracks.len();
    lemma_positions(on_disk, n, true);
    lemma_positions(on_disk, n, false);
    lemma_positions_partition(on_disk, n);
}

/// Parts the entries of `m3u` into those found on disk and those missing.
/// `on_disk[i]` says whether entry `i` was found; an entry that it says
/// nothing of counts as missing. Both lists keep the order of the playlist.
pub fn verify_m3u(m3u: &M3U, on_disk: &Vec<bool>) -> (result: Reconciliation)
    ensures
        result.wf(),
        result@.present == pick(m3u@.tracks, on_disk@, true),
        result@.missing == pick(m3u@.tracks, on_disk@, false),
        result@.outcomes.len() == 0,
{
    let ghost tracks = m3u@.tracks;
    let mut present: Vec<Item> = Vec::new();
    let mut missing: Vec<Item> = Vec::new();
    let mut i: usize = 0;
    while i < m3u.tracks.len()
        invariant
            i <= m3u.tracks.len(),
            tracks == views(m3u.tracks@),
            present.len() == positions(on_disk@, i as nat, true).len(),
            missing.len() == positions(on_disk@, i as nat, false).len(),
            forall|k: int|
                0 <= k < present.len() ==> present@[k]@ == tracks[positions(
                    on_disk@,
                    i as nat,
                    true,
                )[k]],
            forall|k: int|
                0 <= k < missing.len() ==> missing@[k]@ == tracks[positions(
                    on_disk@,
                    i as nat,
                    false,
                )[k]],
        decreases m3u.tracks.len() - i,
    {
        let is_found = i < on_disk.len() && on_disk[i];
        let copy = m3u.tracks[i].clone();
        if is_found {
            present.push(copy);
        } else {
            missing.push(copy);
        }
        i += 1;
    }
    proof {
        lemma_positions_partition(on_disk@, tracks.len());
    }
    Reconciliation { present, missing, outcomes: Vec::new() }
}

/// Whether every missing entry has its outcome.
pub open spec fn is_done(state: ReconciliationView) -> bool {
    state.outcomes.len() >= state.missing.len()
}

/// Whether the next missing entry can be fetched: it has a key.
pub open spec fn is_waiting(state: ReconciliationView) -> bool {
    !is_done(state) && first_key(state.missing[state.outcomes.len() as int].metadata) is Some
}

/// The state once every entry that comes next and has no key is given up:
/// each of them gets the outcome `UnresolvableEntry`, and the repair goes on
/// with the entry after it.
pub open spec fn settle(state: ReconciliationView) -> ReconciliationView
    decreases state.missing.len() - state.outcomes.len(),
{
    if is_done(state) || is_waiting(state) {
        state
    } else {
        settle(
            ReconciliationView {
                outcomes: state.outcomes.push(RepairOutcome::UnresolvableEntry),
                ..state
            },
        )
    }
}

/// What is to be fetched next, if anything.
pub open spec fn request_of(state: ReconciliationView) -> Option<RepairRequestView> {
    if is_waiting(state) {
        let item = state.missing[state.outcomes.len() as int];
        Some(RepairRequestView { key: first_key(item.metadata)->0, path: item.path })
    } else {
        None
    }
}

/// The outcome of an entry whose fetch went as `result` says.
pub open spec fn outcome_of(result: FetchResult) -> RepairOutcome {
    match result {
        FetchResult::Created => RepairOutcome::Repaired,
        FetchResult::FetchFailure => RepairOutcome::FetchFailure,
        FetchResult::IOFailure => RepairOutcome::IOFailure,
    }
}

/// The state once the fetch that was asked for went as `result` says: the
/// entry has its outcome. Where nothing was asked for, nothing changes.
pub open spec fn record_spec(state: ReconciliationView, result: FetchResult) -> ReconciliationView {
    if is_waiting(state) {
        ReconciliationView { outcomes: state.outcomes.push(outcome_of(result)), ..state }
    } else {
        state
    }
}

/// How many of `outcomes` are `Repaired`.
pub open spec fn repaired_count(outcomes: Seq<RepairOutcome>) -> nat
    decreases outcomes.len(),
{
    if outcomes.len() == 0 {
        0
    } else {
        repaired_count(outcomes.drop_last()) + if outcomes.last() == RepairOutcome::Repaired {
            1nat
        } else {
            0nat
        }
    }
}

/// The entries whose repair failed, each with the reason, in the order of
/// `missing`. `outcomes[i]` is the outcome of `missing[i]`.
pub open spec fn failures_of(missing: Seq<ItemView>, outcomes: Seq<RepairOutcome>) -> Seq<
    FailureView,
>
    decreases outcomes.len(),
{
    if outcomes.len() == 0 {
        Seq::empty()
    } else {
        failures_of(missing, outcomes.drop_last()) + if outcomes.last()
            == RepairOutcome::Repaired {
            Seq::empty()
        } else {
            seq![
                FailureView {
                    path: missing[outcomes.len() - 1].path,
                    reason: outcomes.last(),
                },
            ]
        }
    }
}

impl Reconciliation {
    /// Whether the value is in order: no more outcomes than missing entries,
    /// and a number of entries that can be counted.
    pub closed spec fn wf(&self) -> bool {
        &&& self.outcomes.len() <= self.missing.len()
        &&& self.present.len() + self.missing.len() <= usize::MAX
    }

    /// The entries that were on disk, in playlist order.
    pub fn present(&self) -> (present: &Vec<Item>)
        ensures
            views(present@) == self@.present,
    {
        &self.present
    }

    /// The entries that were not on disk, in playlist order.
    pub fn missing(&self) -> (missing: &Vec<Item>)
        ensures
            views(missing@) == self@.missing,
    {
        &self.missing
    }

    /// How the repair ended for the missing entries that it has reached, in
    /// playlist order.
    pub fn outcomes(&self) -> (outcomes: &Vec<RepairOutcome>)
        ensures
            outcomes@ == self@.outcomes,
    {
        &self.outcomes
    }

    /// How many entries the playlist has.
    pub fn total(&self) -> (total: usize)
        requires
            self.wf(),
        ensures
            total == self@.present.len() + self@.missing.len(),
    {
        self.present.len() + self.missing.len()
    }

    /// What to fetch next, for one who has the leave to repair. Entries
    /// without a key are given up on the way,
    /// each with the outcome `UnresolvableEntry`. `None` says that every
    /// missing entry has its outcome. Asking again before the answer is
    /// recorded gives the same request.
    pub fn next_request(&mut self, _permit: &RepairPermit) -> (request: Option<RepairRequest>)
        requires
            old(self).wf(),
        ensures
            final(self).wf(),
            final(self)@ == settle(old(self)@),
            match request {
                Some(r) => request_of(final(self)@) == Some(r@),
                None => is_done(final(self)@),
            },
    {
        while self.outcomes.len() < self.missing.len()
            invariant
                self.wf(),
                settle(self@) == settle(old(self)@),
            decreases self.missing.len() - self.outcomes.len(),
        {
            let item = &self.missing[self.outcomes.len()];
            match item.track_key() {
                Some(key) => {
                    return Some(RepairRequest { key, path: item.path.clone() });
                },
                None => {
                    self.outcomes.push(RepairOutcome::UnresolvableEntry);
                },
            }
        }
        None
    }

    /// Records, for one who has the leave to repair, how the fetch that was
    /// asked for went, and says whether one was asked for. Whatever the result, the repair goes on with the next
    /// entry. Without a request waiting, nothing changes.
    pub fn record(&mut self, _permit: &RepairPermit, result: FetchResult) -> (recorded: bool)
        requires
            old(self).wf(),
        ensures
            final(self).wf(),
            final(self)@ == record_spec(old(self)@, result),
            recorded == is_waiting(old(self)@),
    {
        if self.outcomes.len() < self.missing.len() {
            let item = &self.missing[self.outcomes.len()];
            if item.track_key().is_some() {
                let outcome = match result {
                    FetchResult::Created => RepairOutcome::Repaired,
                    FetchResult::FetchFailure => RepairOutcome::FetchFailure,
                    FetchResult::IOFailure => RepairOutcome::IOFailure,
                };
                self.outcomes.push(outcome);
                return true;
            }
        }
        false
    }

    /// The counts of the run so far, and the entries whose repair failed. An
    /// entry that the repair has not reached counts as still missing, and is
    /// no failure.
    pub fn summary(&self) -> (summary: Summary)
        requires
            self.wf(),
        ensures
            summary.total == self@.present.len() + self@.missing.len(),
            summary.present == self@.present.len(),
            summary.missing == self@.missing.len(),
            summary.repaired == repaired_count(self@.outcomes),
            summary.still_missing == self@.missing.len() - repaired_count(self@.outcomes),
            views(summary.failures@) == failures_of(self@.missing, self@.outcomes),
    {
        let ghost missing = self@.missing;
        let ghost outcomes = self@.outcomes;
        let mut repaired: usize = 0;
        let mut failures: Vec<Failure> = Vec::new();
        let mut i: usize = 0;
        while i < self.outcomes.len()
            invariant
                i <= self.outcomes.len() <= self.missing.len(),
                missing == views(self.missing@),
                outcomes == self.outcomes@,
                repaired == repaired_count(outcomes.take(i as int)),
                repaired <= i,
                views(failures@) == failures_of(missing, outcomes.take(i as int)),
            decreases self.outcomes.len() - i,
        {
            let ghost grown = outcomes.take(i + 1);
            assert(grown.drop_last() == outcomes.take(i as int));
            match self.outcomes[i] {
                RepairOutcome::Repaired => {
                    repaired += 1;
                },
                reason => {
                    let failure = Failure { path: self.missing[i].path.clone(), reason };
                    failures.push(failure);
                },
            }
            i += 1;
        }
        assert(outcomes.take(i as int) == outcomes);
        Summary {
            total: self.present.len() + self.missing.len(),
            present: self.present.len(),
            missing: self.missing.len(),
            repaired,
            still_missing: self.missing.len() - repaired,
            failures,
        }
    }
}

/// Why an entry is still missing, in words.
pub open spec fn reason_text(reason: RepairOutcome) -> Seq<char> {
    match reason {
        RepairOutcome::Repaired => "repaired"@,
        RepairOutcome::UnresolvableEntry => "no track key"@,
        RepairOutcome::FetchFailure => "fetch failed, a partial file may be left"@,
        RepairOutcome::IOFailure => "file not written"@,
    }
}

/// The line that reports one failure.
pub open spec fn failure_line(failure: FailureView) -> Seq<char> {
    "Could not download "@ + failure.path + " ("@ + reason_text(failure.reason) + ")"@
}

/// The line that gives the counts of a run in which entries were missing.
pub open spec fn counts_line(missing: nat, total: nat, repaired: nat, still_missing: nat) -> Seq<
    char,
> {
    "Missing tracks: "@ + decimal(missing) + " / "@ + decimal(total) + ", repaired: "@ + decimal(
        repaired,
    ) + ", still missing: "@ + decimal(still_missing)
}

/// The lines that report a run: where nothing was missing, one line that
/// says so with the number of entries; else one line for each failure, then
/// the counts.
pub open spec fn report_lines(
    total: nat,
    missing: nat,
    repaired: nat,
    still_missing: nat,
    failures: Seq<FailureView>,
) -> Seq<Seq<char>> {
    if missing == 0 {
        seq!["All tracks ("@ + decimal(total) + ") exists"@]
    } else {
        Seq::new(failures.len(), |i: int| failure_line(failures[i])).push(
            counts_line(missing, total, repaired, still_missing),
        )
    }
}

impl RepairOutcome {
    /// Why an entry is still missing, in words.
    pub fn describe(&self) -> (text: &'static str)
        ensures
            text@ == reason_text(*self),
    {
        match self {
            RepairOutcome::Repaired => "repaired",
            RepairOutcome::UnresolvableEntry => "no track key",
            RepairOutcome::FetchFailure => "fetch failed, a partial file may be left",
            RepairOutcome::IOFailure => "file not written",
        }
    }
}

impl Summary {
    /// The report of the run, line by line: where nothing was missing, one
    /// line that says so; else one line for each failure, then the counts.
    pub fn report(&self) -> (text: String)
        ensures
            text@ == join_lines(
                report_lines(
                    self.total as nat,
                    self.missing as nat,
                    self.repaired as nat,
                    self.still_missing as nat,
                    views(self.failures@),
                ),
            ),
    {
        let ghost failures = views(self.failures@);
        let mut text = String::new();
        let ghost mut lines: Seq<Seq<char>> = Seq::empty();
        if self.missing == 0 {
            text.append("All tracks (");
            push_decimal(&mut text, self.total as u64);
            text.append(") exists");
            text.push('\n');
            proof {
                let line = "All tracks ("@ + decimal(self.total as nat) + ") exists"@;
                lemma_join_push(lines, line);
            }
            return text;
        }
        let ghost all = Seq::new(failures.len(), |i: int| failure_line(failures[i]));
        let mut i: usize = 0;
        while i < self.failures.len()
            invariant
                i <= self.failures.len(),
                failures == views(self.failures@),
                all == Seq::new(failures.len(), |i: int| failure_line(failures[i])),
                text@ == join_lines(lines),
                lines == all.take(i as int),
            decreases self.failures.len() - i,
        {
            let failure = &self.failures[i];
            text.append("Could not download ");
            text.append(failure.path.as_str());
            text.append(" (");
            text.append(failure.reason.describe());
            text.append(")");
            text.push('\n');
            proof {
                let line = all[i as int];
                lemma_join_push(lines, line);
                lines = lines.push(line);
            }
            i += 1;
        }
        assert(all.take(i as int) == all);
        text.append("Missing tracks: ");
        push_decimal(&mut text, self.missing as u64);
        text.append(" / ");
        push_decimal(&mut text, self.total as u64);
        text.append(", repaired: ");
        push_decimal(&mut text, self.repaired as u64);
        text.append(", still missing: ");
        push_decimal(&mut text, self.still_missing as u64);
        text.push('\n');
        proof {
            let line = counts_line(
                self.missing as nat,
                self.total as nat,
                self.repaired as nat,
                self.still_missing as nat,
            );
            lemma_join_push(lines, line);
        }
        text
    }
}

} // verus!
