//! The shared-log source: one plain-text log for a whole directory, in which
//! each line may name an event and the demo it belongs to.

use crate::demo::{
    included_of, skipped_of, IncludedDemo, IncludedDemoView, Outcome, Reason, SkipCause,
    SkippedDemo, SkippedDemoView, SourceId,
};
use crate::policy::{all_killstreaks, decide, decision};
use crate::table::EventTable;
use crate::text::{captures, is_match, lowercase, regex_captures, regex_is_match, to_lowercase};
use crate::util::{is_demo_extension, DirEntry, DirEntryView};
use vstd::prelude::*;

verus! {

/// Matches a line of the log, as in
/// `[2023/11/27/ 22:01] Kill Streak:5 ("20231127_2152_cp_altitude_RED_BLU" at 32900)`,
/// and captures the event and the name of the demo.
pub const EVENT_EXTRACT_RE: &'static str = "\\[[\\d/\\s:]+]\\s?(.+)\\s\\(\"(.+)\"\\s?at";

/// Matches an event that is a killstreak, as in `Kill Streak:5`, whatever the
/// case of its letters.
pub const KS_RE: &'static str = "(?i)Kill\\sStreak:\\d+";

/// The name of the shared log.
pub const PREC_KS_FILE: &'static str = "KillStreaks.txt";

/// What follows the name of a demo in the name of its file.
pub const DEMO_SUFFIX: &'static str = ".dem";

/// A place where the shared log is looked for.
#[derive(Clone, Debug, PartialEq, Eq)]
pub struct LogCandidate {
    /// The directory that is searched, and whose demos the log speaks of.
    pub dir: String,
    /// Where the log is in that directory, if it is there.
    pub log_path: String,
    /// Whether the log is there.
    pub exists: bool,
}

/// Whether the `k`-th place is the first at which the log is.
pub open spec fn is_first_hit(search: Seq<LogCandidate>, k: int) -> bool {
    &&& 0 <= k < search.len()
    &&& search[k].exists
    &&& forall|j: int| 0 <= j < k ==> !(#[trigger] search[j]).exists
}

/// Whether the log is at none of the places.
pub open spec fn no_hit(search: Seq<LogCandidate>) -> bool {
    forall|j: int| 0 <= j < search.len() ==> !(#[trigger] search[j]).exists
}

/// Picks the place of the shared log among the places that were searched, in
/// the order of the search: the first at which the log is. Its directory is
/// the one whose demos are then gone through.
pub fn find_prec_ks_file(search: &Vec<LogCandidate>) -> (found: Option<usize>)
    ensures
        match found {
            Some(k) => is_first_hit(search@, k as int),
            None => no_hit(search@),
        },
{
    let mut k: usize = 0;
    while k < search.len()
        invariant
            k <= search.len(),
            forall|j: int| 0 <= j < k ==> !(#[trigger] search@[j]).exists,
        decreases search.len() - k,
    {
        if search[k].exists {
            return Some(k);
        }
        k += 1;
    }
    None
}

/// Where the log is only in the second of two places, the parent of the
/// chosen directory, that place and no other is picked, so that the demos of
/// the parent are gone through.
pub proof fn log_in_parent_only_picks_parent(search: Seq<LogCandidate>)
    requires
        search.len() == 2,
        !search[0].exists,
        search[1].exists,
    ensures
        is_first_hit(search, 1),
        !no_hit(search),
        forall|k: int| is_first_hit(search, k) ==> k == 1,
{
    assert forall|k: int| is_first_hit(search, k) implies k == 1 by {
        if k == 0 {
            assert(search[0].exists);
        }
    }
}

/// Whether an event of the log is a killstreak: `KS_RE` matches in it, which
/// pays no regard to the case of letters.
pub open spec fn is_killstreak(label: Seq<char>) -> bool {
    regex_is_match(KS_RE@, label) == Some(true)
}

/// What the policy says of a demo for which the log holds the given set of
/// events, `None` where the log does not speak of the demo.
pub open spec fn log_decision(events: Option<Set<Seq<char>>>, filter_ks_only: bool) -> (
    bool,
    Reason,
) {
    match events {
        None => (true, Reason::NoEvents),
        Some(labels) => if !filter_ks_only {
            (false, Reason::HasEvents)
        } else if only_killstreaks(labels) {
            (true, Reason::OnlyKillstreaks)
        } else {
            (false, Reason::HasCustomBookmark)
        },
    }
}

/// Whether every event of the set is a killstreak.
pub open spec fn only_killstreaks(labels: Set<Seq<char>>) -> bool {
    forall|e: Seq<char>| labels.contains(e) ==> is_killstreak(e)
}

/// For each event whether it is a killstreak.
pub open spec fn killstreak_flags(events: Option<Seq<Seq<char>>>) -> Option<Seq<bool>> {
    match events {
        Some(labels) => Some(Seq::new(labels.len(), |i: int| is_killstreak(labels[i]))),
        None => None,
    }
}

/// The events as a set.
pub open spec fn event_set(events: Option<Seq<Seq<char>>>) -> Option<Set<Seq<char>>> {
    match events {
        Some(labels) => Some(labels.to_set()),
        None => None,
    }
}

/// The decision on a set of events is the shared policy applied to the events
/// in any order and with any repetitions.
pub proof fn log_decision_is_the_policy(events: Option<Seq<Seq<char>>>, filter_ks_only: bool)
    ensures
        log_decision(event_set(events), filter_ks_only) == decision(
            killstreak_flags(events),
            filter_ks_only,
        ),
{
    match events {
        None => {},
        Some(labels) => {
            let flags = killstreak_flags(events)->0;
            if all_killstreaks(flags) {
                assert forall|e: Seq<char>| labels.to_set().contains(e) implies is_killstreak(
                    e,
                ) by {
                    let i = choose|i: int| 0 <= i < labels.len() && labels[i] == e;
                    assert(flags[i]);
                }
            } else {
                let i = choose|i: int| 0 <= i < flags.len() && !flags[i];
                assert(labels.to_set().contains(labels[i]));
            }
        },
    }
}

/// Decides whether a demo with the given events in the log is kept; `None`
/// stands for a demo of which the log does not speak.
pub fn should_include_demo(events: Option<&Vec<String>>, filter_ks_only: bool) -> (d: (
    bool,
    Reason,
))
    ensures
        d == log_decision(event_set(events.deep_view()), filter_ks_only),
        d == decision(killstreak_flags(events.deep_view()), filter_ks_only),
{
    proof {
        log_decision_is_the_policy(events.deep_view(), filter_ks_only);
    }
    match events {
        None => decide(None, filter_ks_only),
        Some(labels) => {
            let mut flags: Vec<bool> = Vec::new();
            let mut i: usize = 0;
            while i < labels.len()
                invariant
                    i <= labels.len(),
                    flags@.len() == i,
                    forall|j: int| 0 <= j < i ==> flags@[j] == is_killstreak(labels@[j]@),
                decreases labels.len() - i,
            {
                let hit = is_match(KS_RE, labels[i].as_str());
                flags.push(
                    match hit {
                        Some(b) => b,
                        None => false,
                    },
                );
                i += 1;
            }
            assert(Some(flags@) =~= killstreak_flags(events.deep_view()));
            decide(Some(&flags), filter_ks_only)
        },
    }
}

/// The name of the file of the demo that the log calls `name`.
pub open spec fn demo_file_name(name: Seq<char>) -> Seq<char> {
    lowercase(name) + DEMO_SUFFIX@
}

/// What the log refers to, given what the pattern captured in it: for each
/// match, in order, the event and the name of the demo's file. Nothing where
/// the pattern did not compile.
pub open spec fn log_references(found: Option<Seq<(Seq<char>, Seq<char>)>>) -> Seq<
    (Seq<char>, Seq<char>),
> {
    match found {
        Some(matches) => Seq::new(
            matches.len(),
            |i: int| (matches[i].0, demo_file_name(matches[i].1)),
        ),
        None => Seq::empty(),
    }
}

/// The names of the files of a listing.
pub open spec fn file_names(listing: Seq<DirEntryView>) -> Set<Seq<char>> {
    Set::new(
        |f: Seq<char>| exists|i: int| 0 <= i < listing.len() && (#[trigger] listing[i]).file_name == f,
    )
}

/// The events of each demo: a file has events where it is among `files` and
/// some reference names it, and its events are those of all the references
/// that name it.
pub open spec fn event_map(refs: Seq<(Seq<char>, Seq<char>)>, files: Set<Seq<char>>) -> Map<
    Seq<char>,
    Set<Seq<char>>,
> {
    Map::new(
        |f: Seq<char>|
            files.contains(f) && exists|i: int| 0 <= i < refs.len() && (#[trigger] refs[i]).1 == f,
        |f: Seq<char>|
            Set::new(
                |e: Seq<char>| exists|i: int| 0 <= i < refs.len() && #[trigger] refs[i] == (e, f),
            ),
    )
}

/// The events of each demo of a listing according to a log with the given
/// content.
pub open spec fn log_event_map(content: Seq<char>, listing: Seq<DirEntryView>) -> Map<
    Seq<char>,
    Set<Seq<char>>,
> {
    event_map(log_references(regex_captures(EVENT_EXTRACT_RE@, content)), file_names(listing))
}

/// A reference to a file that is not there leaves no trace.
pub proof fn unlisted_demo_is_not_recorded(
    refs: Seq<(Seq<char>, Seq<char>)>,
    files: Set<Seq<char>>,
    f: Seq<char>,
)
    requires
        !files.contains(f),
    ensures
        !event_map(refs, files).dom().contains(f),
{
}

/// A reference to a file that is there records its event for that file.
pub proof fn listed_reference_is_recorded(
    refs: Seq<(Seq<char>, Seq<char>)>,
    files: Set<Seq<char>>,
    i: int,
)
    requires
        0 <= i < refs.len(),
        files.contains(refs[i].1),
    ensures
        event_map(refs, files).dom().contains(refs[i].1),
        event_map(refs, files)[refs[i].1].contains(refs[i].0),
{
}

/// Taking one more reference into account adds its event to its file where
/// the file is there, and changes nothing else.
proof fn lemma_event_map_step(refs: Seq<(Seq<char>, Seq<char>)>, files: Set<Seq<char>>, i: int)
    requires
        0 <= i < refs.len(),
    ensures
        event_map(refs.take(i + 1), files) == if files.contains(refs[i].1) {
            let known = event_map(refs.take(i), files);
            known.insert(
                refs[i].1,
                (if known.dom().contains(refs[i].1) {
                    known[refs[i].1]
                } else {
                    Set::empty()
                }).insert(refs[i].0),
            )
        } else {
            event_map(refs.take(i), files)
        },
{
    let f = refs[i].1;
    let e = refs[i].0;
    let more = refs.take(i + 1);
    let less = refs.take(i);
    let known = event_map(less, files);
    let grown = event_map(more, files);
    assert(more[i] == refs[i]);
    assert forall|j: int| 0 <= j < i implies #[trigger] more[j] == less[j] by {}
    let target = if files.contains(f) {
        known.insert(
            f,
            (if known.dom().contains(f) {
                known[f]
            } else {
                Set::empty()
            }).insert(e),
        )
    } else {
        known
    };
    assert forall|g: Seq<char>| grown.dom().contains(g) == target.dom().contains(g) by {
        if grown.dom().contains(g) {
            let j = choose|j: int| 0 <= j < more.len() && (#[trigger] more[j]).1 == g;
            if j < i {
                assert(less[j].1 == g);
            }
        }
        if known.dom().contains(g) {
            let j = choose|j: int| 0 <= j < less.len() && (#[trigger] less[j]).1 == g;
            assert(more[j].1 == g);
        }
    }
    assert forall|g: Seq<char>| grown.dom().contains(g) implies grown[g] =~= target[g] by {
        assert forall|x: Seq<char>| grown[g].contains(x) == target[g].contains(x) by {
            if grown[g].contains(x) {
                let j = choose|j: int| 0 <= j < more.len() && #[trigger] more[j] == (x, g);
                if j < i {
                    assert(less[j] == (x, g));
                    assert(less[j].1 == g);
                }
            }
            if known.dom().contains(g) && known[g].contains(x) {
                let j = choose|j: int| 0 <= j < less.len() && #[trigger] less[j] == (x, g);
                assert(more[j] == (x, g));
            }
            if g == f && x == e {
                assert(more[i] == (x, g));
            }
        }
    }
    assert(grown =~= target);
}

/// Turns what the pattern captured in the log into references.
pub fn references(found: Option<Vec<(String, String)>>) -> (refs: Vec<(String, String)>)
    ensures
        refs.deep_view() == log_references(found.deep_view()),
{
    let mut refs: Vec<(String, String)> = Vec::new();
    match found {
        None => {
            assert(refs.deep_view() =~= Seq::<(Seq<char>, Seq<char>)>::empty());
        },
        Some(matches) => {
            let mut i: usize = 0;
            while i < matches.len()
                invariant
                    i <= matches.len(),
                    refs@.len() == i,
                    forall|j: int|
                        0 <= j < i ==> (#[trigger] refs@[j]).0@ == matches@[j].0@ && refs@[j].1@
                            == demo_file_name(matches@[j].1@),
                decreases matches.len() - i,
            {
                let event = matches[i].0.clone();
                let file = to_lowercase(matches[i].1.as_str()).concat(DEMO_SUFFIX);
                refs.push((event, file));
                i += 1;
            }
            assert(refs.deep_view() =~= log_references(Some(matches.deep_view())));
        },
    }
    refs
}

/// Whether the listing holds a file of the given name.
fn listed(listing: &Vec<DirEntry>, name: &String) -> (b: bool)
    ensures
        b == file_names(listing.deep_view()).contains(name@),
{
    let mut i: usize = 0;
    while i < listing.len()
        invariant
            i <= listing.len(),
            forall|j: int| 0 <= j < i ==> (#[trigger] listing@[j]).file_name@ != name@,
        decreases listing.len() - i,
    {
        if listing[i].file_name == *name {
            assert(listing.deep_view()[i as int].file_name == name@);
            return true;
        }
        i += 1;
    }
    assert forall|j: int| 0 <= j < listing.len() implies (
    #[trigger] listing.deep_view()[j]).file_name != name@ by {
        assert(listing@[j].file_name@ != name@);
    }
    false
}

/// Gathers the events of each demo from the references of a log. A reference
/// to a file that the listing does not hold is dropped.
pub fn build_event_table(refs: &Vec<(String, String)>, listing: &Vec<DirEntry>) -> (table:
    EventTable)
    ensures
        table.wf(),
        table@ == event_map(refs.deep_view(), file_names(listing.deep_view())),
{
    let ghost all = refs.deep_view();
    let ghost files = file_names(listing.deep_view());
    let mut table = EventTable::new();
    let mut i: usize = 0;
    assert(table@ =~= event_map(all.take(0), files));
    while i < refs.len()
        invariant
            i <= refs.len(),
            all == refs.deep_view(),
            files == file_names(listing.deep_view()),
            table.wf(),
            table@ == event_map(all.take(i as int), files),
        decreases refs.len() - i,
    {
        proof {
            lemma_event_map_step(all, files, i as int);
        }
        if listed(listing, &refs[i].1) {
            table.insert(refs[i].1.clone(), refs[i].0.clone());
        }
        i += 1;
    }
    assert(all.take(i as int) =~= all);
    table
}

/// Extracts from the content of a log the events of each demo of the listing.
pub fn extract_log_events(content: &str, listing: &Vec<DirEntry>) -> (table: EventTable)
    ensures
        table.wf(),
        table@ == log_event_map(content@, listing.deep_view()),
{
    let refs = references(captures(EVENT_EXTRACT_RE, content));
    build_event_table(&refs, listing)
}

/// The shared log of a directory and the entries of that directory.
#[derive(Clone, Debug, PartialEq, Eq)]
pub struct SharedLog {
    /// The text of the log.
    pub content: String,
    /// The entries of the directory in which the log was found.
    pub listing: Vec<DirEntry>,
}

/// What the collector makes of one entry: an entry that is no demo is
/// ignored, and a demo is kept or passed over as the policy says of the
/// events that `table` holds for its file.
pub open spec fn log_outcome(
    e: DirEntryView,
    table: Map<Seq<char>, Set<Seq<char>>>,
    filter_ks_only: bool,
) -> Outcome {
    if !is_demo_extension(e.extension) {
        Outcome::Ignored
    } else {
        let events = if table.dom().contains(e.file_name) {
            Some(table[e.file_name])
        } else {
            None
        };
        let d = log_decision(events, filter_ks_only);
        if d.0 {
            Outcome::Included(
                IncludedDemoView {
                    inclusion_reason: d.1,
                    demo_path: e.path,
                    events_json_path: None,
                    id: SourceId::Prec,
                },
            )
        } else {
            Outcome::Skipped(
                SkippedDemoView { file_name: e.file_name, cause: SkipCause::Excluded(d.1) },
            )
        }
    }
}

/// The outcome of each entry of a directory whose log has the given content.
pub open spec fn log_outcomes(
    content: Seq<char>,
    listing: Seq<DirEntryView>,
    filter_ks_only: bool,
) -> Seq<Outcome> {
    Seq::new(
        listing.len(),
        |i: int| log_outcome(listing[i], log_event_map(content, listing), filter_ks_only),
    )
}

/// Extracts the events of every demo from the log, then goes through the
/// listing in its order and appends to `included_files` each demo that the
/// policy keeps. Returns the demos that were passed over, in the same order.
/// Without a log nothing is collected and `None` is returned.
pub fn collect_prec_demos(
    log: Option<&SharedLog>,
    include_ks_only: bool,
    included_files: &mut Vec<IncludedDemo>,
) -> (skipped: Option<Vec<SkippedDemo>>)
    ensures
        match log {
            None => skipped is None && *final(included_files) == *old(included_files),
            Some(l) => {
                let outcomes = log_outcomes(l.content@, l.listing.deep_view(), include_ks_only);
                &&& skipped is Some
                &&& skipped->0.deep_view() == skipped_of(outcomes)
                &&& final(included_files).deep_view() == old(included_files).deep_view()
                    + included_of(outcomes)
            },
        },
{
    let l = match log {
        Some(l) => l,
        None => {
            return None;
        },
    };
    let table = extract_log_events(l.content.as_str(), &l.listing);
    let ghost outcomes = log_outcomes(l.content@, l.listing.deep_view(), include_ks_only);
    let ghost before = included_files.deep_view();
    let mut skipped: Vec<SkippedDemo> = Vec::new();
    let mut i: usize = 0;
    assert(outcomes.take(0) =~= Seq::<Outcome>::empty());
    assert(included_files.deep_view() =~= before + included_of(outcomes.take(0)));
    assert(skipped.deep_view() =~= skipped_of(outcomes.take(0)));
    while i < l.listing.len()
        invariant
            i <= l.listing.len(),
            table.wf(),
            table@ == log_event_map(l.content@, l.listing.deep_view()),
            outcomes == log_outcomes(l.content@, l.listing.deep_view(), include_ks_only),
            included_files.deep_view() == before + included_of(outcomes.take(i as int)),
            skipped.deep_view() == skipped_of(outcomes.take(i as int)),
        decreases l.listing.len() - i,
    {
        let e = &l.listing[i];
        let ghost kept = included_files.deep_view();
        let ghost passed = skipped.deep_view();
        proof {
            outcomes.lemma_filter_map_take_succ(|o: Outcome| o.included(), i as int);
            outcomes.lemma_filter_map_take_succ(|o: Outcome| o.skipped(), i as int);
            assert(outcomes[i as int] == log_outcome(e@, table@, include_ks_only));
        }
        if e.is_demo() {
            let (keep, reason) = should_include_demo(table.get(&e.file_name), include_ks_only);
            if keep {
                included_files.push(
                    IncludedDemo {
                        inclusion_reason: reason,
                        demo_path: e.path.clone(),
                        events_json_path: None,
                        id: SourceId::Prec,
                    },
                );
                assert(included_files.deep_view() =~= kept + seq![outcomes[i as int].included()->0]);
                assert(skipped.deep_view() =~= passed);
            } else {
                skipped.push(
                    SkippedDemo {
                        file_name: e.file_name.clone(),
                        cause: SkipCause::Excluded(reason),
                    },
                );
                assert(skipped.deep_view() =~= passed + seq![outcomes[i as int].skipped()->0]);
                assert(included_files.deep_view() =~= kept);
            }
        }
        i += 1;
    }
    assert(outcomes.take(i as int) =~= outcomes);
    Some(skipped)
}

/// What the collector appends depends on the log, the listing and the filter
/// alone: two runs over one directory append the same records in the same
/// order, whatever the lists held before.
pub proof fn collecting_twice_gives_the_same(
    content: Seq<char>,
    listing: Seq<DirEntryView>,
    filter_ks_only: bool,
    first_before: Seq<IncludedDemoView>,
    first_after: Seq<IncludedDemoView>,
    second_before: Seq<IncludedDemoView>,
    second_after: Seq<IncludedDemoView>,
)
    requires
        first_after == first_before + included_of(log_outcomes(content, listing, filter_ks_only)),
        second_after == second_before + included_of(
            log_outcomes(content, listing, filter_ks_only),
        ),
    ensures
        first_after.len() - first_before.len() == second_after.len() - second_before.len(),
        first_after.skip(first_before.len() as int) == second_after.skip(
            second_before.len() as int,
        ),
{
    let appended = included_of(log_outcomes(content, listing, filter_ks_only));
    assert(first_after.skip(first_before.len() as int) =~= appended);
    assert(second_after.skip(second_before.len() as int) =~= appended);
}

} // verus!
