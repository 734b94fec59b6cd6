use vstd::prelude::*;
use crate::engine::walk_paths;
use crate::strutil::{extension_of, lower_of, lowercase, spec_extension_of, views_of};

verus! {

/// A candidate path passes the extension filter: an empty filter admits every
/// path; otherwise the path must have an extension whose case-folded form
/// equals the case-folded form of some filter entry.
pub open spec fn spec_should_scan(filters: Seq<Seq<char>>, path: Seq<char>) -> bool {
    filters.len() == 0 || (spec_extension_of(path) matches Some(e) && exists|i: int|
        0 <= i < filters.len() && lower_of(filters[i]) == lower_of(e))
}

pub fn should_scan(filters: &Vec<String>, path: &String) -> (r: bool)
    ensures
        r == spec_should_scan(views_of(filters@), path@),
{
    if filters.len() == 0 {
        return true;
    }
    match extension_of(path.as_str()) {
        None => false,
        Some(e) => {
            let le = lowercase(e.as_str());
            let mut i: usize = 0;
            while i < filters.len()
                invariant
                    i <= filters.len(),
                    le@ == lower_of(e@),
                    spec_extension_of(path@) == Some(e@),
                    forall|j: int| 0 <= j < i ==> lower_of(views_of(filters@)[j]) != lower_of(e@),
                decreases filters.len() - i,
            {
                let lf = lowercase(filters[i].as_str());
                if lf == le {
                    assert(lower_of(views_of(filters@)[i as int]) == lower_of(e@));
                    return true;
                }
                i += 1;
            }
            false
        },
    }
}

/// The subsequence of `entries` passing the extension filter, order kept.
pub open spec fn spec_selected(entries: Seq<Seq<char>>, filters: Seq<Seq<char>>) -> Seq<Seq<char>>
    decreases entries.len(),
{
    if entries.len() == 0 {
        Seq::empty()
    } else {
        let rest = spec_selected(entries.drop_last(), filters);
        if spec_should_scan(filters, entries.last()) {
            rest.push(entries.last())
        } else {
            rest
        }
    }
}

/// How many entries pass the extension filter.
pub open spec fn spec_count_matching(entries: Seq<Seq<char>>, filters: Seq<Seq<char>>) -> nat
    decreases entries.len(),
{
    if entries.len() == 0 {
        0
    } else {
        spec_count_matching(entries.drop_last(), filters) + (if spec_should_scan(
            filters,
            entries.last(),
        ) {
            1nat
        } else {
            0nat
        })
    }
}

pub fn select_paths(entries: &Vec<String>, filters: &Vec<String>) -> (r: Vec<String>)
    ensures
        views_of(r@) == spec_selected(views_of(entries@), views_of(filters@)),
{
    let ghost all = views_of(entries@);
    let ghost fs = views_of(filters@);
    let mut r: Vec<String> = Vec::new();
    let mut i: usize = 0;
    while i < entries.len()
        invariant
            i <= entries.len(),
            all == views_of(entries@),
            fs == views_of(filters@),
            views_of(r@) == spec_selected(all.take(i as int), fs),
        decreases entries.len() - i,
    {
        assert(all.take(i + 1).drop_last() =~= all.take(i as int));
        assert(all.take(i + 1).last() == entries@[i as int]@);
        if should_scan(filters, &entries[i]) {
            let ghost prev = r@;
            r.push(entries[i].clone());
            assert(views_of(r@) =~= views_of(prev).push(entries@[i as int]@));
        }
        assert(views_of(r@) == spec_selected(all.take(i + 1), fs));
        i += 1;
    }
    assert(all.take(entries@.len() as int) =~= all);
    r
}

/// Enumerates the tree under `root`, symlinked directories followed, and
/// plans one scan job for every entry passing the extension filter, in
/// enumeration order: the planned jobs are exactly the walked entries that
/// the filter admits.
pub fn plan_scan(root: &String, filters: &Vec<String>) -> (r: Vec<String>)
    ensures
        exists|entries: Seq<String>|
            views_of(r@) == spec_selected(views_of(entries), views_of(filters@)),
{
    let entries = walk_paths(root);
    let r = select_paths(&entries, filters);
    proof {
        assert(views_of(r@) == spec_selected(views_of(entries@), views_of(filters@)));
    }
    r
}

/// The counters the one-shot dispatcher reads once, after its join barrier.
pub struct ScanStats {
    pub num_scanned: u32,
    pub num_detected: u32,
}

impl ScanStats {
    pub fn new() -> (s: ScanStats)
        ensures
            s.num_scanned == 0,
            s.num_detected == 0,
    {
        ScanStats { num_scanned: 0, num_detected: 0 }
    }

    /// Records one completed scan job, and its detection where positive.
    pub fn record(&mut self, detected: bool)
        requires
            old(self).num_scanned < u32::MAX,
            detected ==> old(self).num_detected < u32::MAX,
        ensures
            final(self).num_scanned == old(self).num_scanned + 1,
            detected ==> final(self).num_detected == old(self).num_detected + 1,
            !detected ==> final(self).num_detected == old(self).num_detected,
    {
        self.num_scanned = self.num_scanned + 1;
        if detected {
            self.num_detected = self.num_detected + 1;
        }
    }
}

/// The counters after recording one completion per job, starting from zero:
/// scanned count and detected count.
pub open spec fn spec_run_stats(outcomes: Seq<bool>) -> (nat, nat)
    decreases outcomes.len(),
{
    if outcomes.len() == 0 {
        (0nat, 0nat)
    } else {
        let rest = spec_run_stats(outcomes.drop_last());
        (rest.0 + 1, rest.1 + (if outcomes.last() {
            1nat
        } else {
            0nat
        }))
    }
}

/// How many job outcomes were positive detections.
pub open spec fn spec_count_true(outcomes: Seq<bool>) -> nat
    decreases outcomes.len(),
{
    if outcomes.len() == 0 {
        0
    } else {
        spec_count_true(outcomes.drop_last()) + (if outcomes.last() {
            1nat
        } else {
            0nat
        })
    }
}

proof fn lemma_selected_len(entries: Seq<Seq<char>>, filters: Seq<Seq<char>>)
    ensures
        spec_selected(entries, filters).len() == spec_count_matching(entries, filters),
    decreases entries.len(),
{
    if entries.len() > 0 {
        lemma_selected_len(entries.drop_last(), filters);
    }
}

proof fn lemma_run_stats(outcomes: Seq<bool>)
    ensures
        spec_run_stats(outcomes).0 == outcomes.len(),
        spec_run_stats(outcomes).1 == spec_count_true(outcomes),
    decreases outcomes.len(),
{
    if outcomes.len() > 0 {
        lemma_run_stats(outcomes.drop_last());
    }
}

/// Every planned job passes the extension filter: the selection admits
/// nothing the filter refuses.
pub proof fn lemma_selected_pass(entries: Seq<Seq<char>>, filters: Seq<Seq<char>>)
    ensures
        forall|i: int|
            0 <= i < spec_selected(entries, filters).len() ==> spec_should_scan(
                filters,
                #[trigger] spec_selected(entries, filters)[i],
            ),
    decreases entries.len(),
{
    if entries.len() > 0 {
        lemma_selected_pass(entries.drop_last(), filters);
        let rest = spec_selected(entries.drop_last(), filters);
        let whole = spec_selected(entries, filters);
        if spec_should_scan(filters, entries.last()) {
            assert forall|i: int| 0 <= i < whole.len() implies spec_should_scan(
                filters,
                whole[i],
            ) by {
                if i < rest.len() {
                    assert(whole[i] == rest[i]);
                } else {
                    assert(whole[i] == entries.last());
                }
            }
        }
    }
}

/// One-shot dispatch law: over a tree with exactly K entries passing the
/// extension filter, exactly K jobs are planned, and a summary recording one
/// completion per job counts exactly K scans, with the positive detections
/// among them counted exactly.
pub proof fn lemma_one_shot_summary(
    entries: Seq<Seq<char>>,
    filters: Seq<Seq<char>>,
    outcomes: Seq<bool>,
)
    requires
        outcomes.len() == spec_selected(entries, filters).len(),
    ensures
        spec_selected(entries, filters).len() == spec_count_matching(entries, filters),
        spec_run_stats(outcomes).0 == spec_count_matching(entries, filters),
        spec_run_stats(outcomes).1 == spec_count_true(outcomes),
{
    lemma_selected_len(entries, filters);
    lemma_run_stats(outcomes);
}

/// Extension filtering is case-insensitive: two paths whose extensions agree
/// up to case folding are admitted or rejected together, whatever the filter
/// holds.
pub proof fn lemma_filter_case_insensitive(
    filters: Seq<Seq<char>>,
    p1: Seq<char>,
    p2: Seq<char>,
)
    requires
        spec_extension_of(p1) is Some <==> spec_extension_of(p2) is Some,
        (spec_extension_of(p1) is Some && spec_extension_of(p2) is Some) ==> lower_of(
            spec_extension_of(p1)->0,
        ) == lower_of(spec_extension_of(p2)->0),
    ensures
        spec_should_scan(filters, p1) == spec_should_scan(filters, p2),
{
    if filters.len() > 0 && spec_extension_of(p1) is Some {
        let e1 = spec_extension_of(p1)->0;
        let e2 = spec_extension_of(p2)->0;
        if exists|i: int| 0 <= i < filters.len() && lower_of(filters[i]) == lower_of(e1) {
            let i = choose|i: int| 0 <= i < filters.len() && lower_of(filters[i]) == lower_of(e1);
            assert(0 <= i < filters.len() && lower_of(filters[i]) == lower_of(e2));
        }
        if exists|i: int| 0 <= i < filters.len() && lower_of(filters[i]) == lower_of(e2) {
            let i = choose|i: int| 0 <= i < filters.len() && lower_of(filters[i]) == lower_of(e2);
            assert(0 <= i < filters.len() && lower_of(filters[i]) == lower_of(e1));
        }
    }
}

/// A debounced filesystem event, as the watch dispatcher sees it.
pub enum WatchEvent {
    Create(String),
    NoticeWrite(String),
    Write(String),
    Rename(String, String),
    NoticeRemove(String),
    Remove(String),
    Chmod(String),
    Rescan,
    StreamError(String),
}

/// The path a creation, pending-write, write, or rename event refers to:
/// those are the only events that may submit a scan job.
pub open spec fn spec_watch_target(event: WatchEvent) -> Option<Seq<char>> {
    match event {
        WatchEvent::Create(p) => Some(p@),
        WatchEvent::NoticeWrite(p) => Some(p@),
        WatchEvent::Write(p) => Some(p@),
        WatchEvent::Rename(_, p) => Some(p@),
        _ => None,
    }
}

pub fn watch_target(event: &WatchEvent) -> (r: Option<String>)
    ensures
        r is Some <==> spec_watch_target(*event) is Some,
        r matches Some(p) ==> spec_watch_target(*event) == Some(p@),
{
    match event {
        WatchEvent::Create(p) => Some(p.clone()),
        WatchEvent::NoticeWrite(p) => Some(p.clone()),
        WatchEvent::Write(p) => Some(p.clone()),
        WatchEvent::Rename(_, p) => Some(p.clone()),
        _ => None,
    }
}

/// Maps one event to the watch dispatcher's action, given whether the
/// referenced path still exists as a regular file at dispatch time. Only a
/// creation, pending-write, write, or rename event whose path is then a
/// regular file submits a scan job; every other event, and every event whose
/// path is gone or not a regular file, produces none.
pub fn watch_action(event: &WatchEvent, target_is_file: bool) -> (r: Option<String>)
    ensures
        r is Some <==> (spec_watch_target(*event) is Some && target_is_file),
        r matches Some(p) ==> spec_watch_target(*event) == Some(p@),
{
    match watch_target(event) {
        Some(p) => {
            if target_is_file {
                Some(p)
            } else {
                None
            }
        },
        None => None,
    }
}

} // verus!
