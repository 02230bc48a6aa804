//! The sidecar source: beside each demo lies one JSON-shaped file that lists
//! the demo's events.

use crate::demo::{
    included_of, skipped_of, IncludedDemo, IncludedDemoView, Outcome, Reason, SkipCause,
    SkippedDemo, SkippedDemoView, SourceId,
};
use crate::policy::{decide, decision};
use crate::text::{
    captures, eq_ignore_ascii_case, regex_captures, remove_whitespace, same_ignoring_ascii_case,
    strip_whitespace,
};
use crate::util::{is_demo_extension, DirEntry, DirEntryView};
use vstd::prelude::*;

verus! {

/// A sidecar that lists no event, once its whitespace is removed.
pub const EMPTY_EVENTS: &'static str = "{\"events\":[]}";

/// Matches the type of an event, as in `"name": "Bookmark",`, and captures it.
pub const EVENT_EXTRACT_RE: &'static str = "\"name\":\\s?+\"(.*?)\",";

/// The event type that stands for a killstreak.
pub const KILLSTREAK: &'static str = "killstreak";

/// The extension of a sidecar; its name is otherwise that of its demo.
pub const SIDECAR_EXTENSION: &'static str = "json";

/// Whether an event type denotes a killstreak.
pub open spec fn is_killstreak(label: Seq<char>) -> bool {
    same_ignoring_ascii_case(label, KILLSTREAK@)
}

/// The event types among what the pattern captured: the first group of each
/// match, in order. Nothing where the pattern did not compile.
pub open spec fn event_names(found: Option<Seq<(Seq<char>, Seq<char>)>>) -> Seq<Seq<char>> {
    match found {
        Some(matches) => Seq::new(matches.len(), |i: int| matches[i].0),
        None => Seq::empty(),
    }
}

/// The events of a sidecar with the given content: `None` where the content
/// without its whitespace is `EMPTY_EVENTS`, otherwise the event types that
/// `EVENT_EXTRACT_RE` finds in the content without its whitespace.
pub open spec fn sidecar_events(content: Seq<char>) -> Option<Seq<Seq<char>>> {
    let text = strip_whitespace(content);
    if text == EMPTY_EVENTS@ {
        None
    } else {
        Some(event_names(regex_captures(EVENT_EXTRACT_RE@, text)))
    }
}

/// For each event type whether it denotes a killstreak.
pub open spec fn killstreak_flags(events: Option<Seq<Seq<char>>>) -> Option<Seq<bool>> {
    match events {
        Some(labels) => Some(Seq::new(labels.len(), |i: int| is_killstreak(labels[i]))),
        None => None,
    }
}

/// What the policy says of a demo whose sidecar has the given content.
pub open spec fn sidecar_decision(content: Seq<char>, filter_ks_only: bool) -> (bool, Reason) {
    decision(killstreak_flags(sidecar_events(content)), filter_ks_only)
}

/// Picks the event types out of what the pattern captured.
pub fn event_labels(found: Option<Vec<(String, String)>>) -> (labels: Vec<String>)
    ensures
        labels.deep_view() == event_names(found.deep_view()),
{
    let mut labels: Vec<String> = Vec::new();
    match found {
        None => {
            assert(labels.deep_view() =~= Seq::<Seq<char>>::empty());
        },
        Some(matches) => {
            let mut i: usize = 0;
            while i < matches.len()
                invariant
                    i <= matches.len(),
                    labels@.len() == i,
                    forall|j: int| 0 <= j < i ==> labels@[j]@ == matches@[j].0@,
                decreases matches.len() - i,
            {
                labels.push(matches[i].0.clone());
                i += 1;
            }
            assert(labels.deep_view() =~= event_names(Some(matches.deep_view())));
        },
    }
    labels
}

/// Removes the whitespace from `content` and extracts the events that it
/// lists.
pub fn extract_events(content: &mut String) -> (events: Option<Vec<String>>)
    ensures
        final(content)@ == strip_whitespace(old(content)@),
        events.deep_view() == sidecar_events(old(content)@),
{
    remove_whitespace(content);
    if *content == String::from_str(EMPTY_EVENTS) {
        return None;
    }
    Some(event_labels(captures(EVENT_EXTRACT_RE, content.as_str())))
}

/// Applies the inclusion policy to the events of a sidecar.
pub fn classify(events: Option<&Vec<String>>, filter_ks_only: bool) -> (d: (bool, Reason))
    ensures
        d == decision(killstreak_flags(events.deep_view()), filter_ks_only),
{
    match events {
        None => decide(None, filter_ks_only),
        Some(labels) => {
            let mut flags: Vec<bool> = Vec::new();
            let mut i: usize = 0;
            while i < labels.len()
                invariant
                    i <= labels.len(),
                    flags@.len() == i,
                    forall|j: int| 0 <= j < i ==> flags@[j] == is_killstreak(labels@[j]@),
                decreases labels.len() - i,
            {
                flags.push(eq_ignore_ascii_case(labels[i].as_str(), KILLSTREAK));
                i += 1;
            }
            assert(Some(flags@) =~= killstreak_flags(events.deep_view()));
            decide(Some(&flags), filter_ks_only)
        },
    }
}

/// Decides whether the demo whose sidecar has the given content is kept.
/// The content loses its whitespace.
pub fn should_include_demo(content: &mut String, filter_ks_only: bool) -> (d: (bool, Reason))
    ensures
        final(content)@ == strip_whitespace(old(content)@),
        d == sidecar_decision(old(content)@, filter_ks_only),
{
    let events = extract_events(content);
    classify(events.as_ref(), filter_ks_only)
}

/// What was found where a demo's sidecar should be.
#[derive(Clone, Debug, PartialEq, Eq)]
pub enum Sidecar {
    /// There is no such file.
    Missing,
    /// The file is there and could not be read.
    Unreadable,
    /// The text of the file.
    Content(String),
}

/// A `Sidecar` as a mathematical value.
pub enum SidecarView {
    Missing,
    Unreadable,
    Content(Seq<char>),
}

impl View for Sidecar {
    type V = SidecarView;

    open spec fn view(&self) -> SidecarView {
        match self {
            Sidecar::Missing => SidecarView::Missing,
            Sidecar::Unreadable => SidecarView::Unreadable,
            Sidecar::Content(text) => SidecarView::Content(text@),
        }
    }
}

/// A directory entry with what was found of its sidecar. For an entry that is
/// no demo the sidecar is not looked at.
#[derive(Clone, Debug, PartialEq, Eq)]
pub struct SidecarEntry {
    pub entry: DirEntry,
    /// Where the sidecar is, or would be.
    pub json_path: String,
    pub sidecar: Sidecar,
}

/// A `SidecarEntry` as a mathematical value.
pub struct SidecarEntryView {
    pub entry: DirEntryView,
    pub json_path: Seq<char>,
    pub sidecar: SidecarView,
}

impl View for SidecarEntry {
    type V = SidecarEntryView;

    open spec fn view(&self) -> SidecarEntryView {
        SidecarEntryView { entry: self.entry@, json_path: self.json_path@, sidecar: self.sidecar@ }
    }
}

impl DeepView for SidecarEntry {
    type V = SidecarEntryView;

    open spec fn deep_view(&self) -> SidecarEntryView {
        self@
    }
}

/// What the collector makes of one entry: an entry that is no demo is
/// ignored, a demo without a sidecar or with one that cannot be read is passed
/// over, and any other demo is kept or passed over as the policy says of its
/// sidecar.
pub open spec fn sidecar_outcome(e: SidecarEntryView, filter_ks_only: bool) -> Outcome {
    if !is_demo_extension(e.entry.extension) {
        Outcome::Ignored
    } else {
        match e.sidecar {
            SidecarView::Missing => Outcome::Skipped(
                SkippedDemoView { file_name: e.entry.file_name, cause: SkipCause::NoSidecar },
            ),
            SidecarView::Unreadable => Outcome::Skipped(
                SkippedDemoView {
                    file_name: e.entry.file_name,
                    cause: SkipCause::Excluded(Reason::ReadFailed),
                },
            ),
            SidecarView::Content(text) => {
                let d = sidecar_decision(text, filter_ks_only);
                if d.0 {
                    Outcome::Included(
                        IncludedDemoView {
                            inclusion_reason: d.1,
                            demo_path: e.entry.path,
                            events_json_path: Some(e.json_path),
                            id: SourceId::DemoSupport,
                        },
                    )
                } else {
                    Outcome::Skipped(
                        SkippedDemoView {
                            file_name: e.entry.file_name,
                            cause: SkipCause::Excluded(d.1),
                        },
                    )
                }
            },
        }
    }
}

/// The outcome of each entry of a listing.
pub open spec fn sidecar_outcomes(entries: Seq<SidecarEntryView>, filter_ks_only: bool) -> Seq<
    Outcome,
> {
    Seq::new(entries.len(), |i: int| sidecar_outcome(entries[i], filter_ks_only))
}

/// Goes through a directory listing in its order and appends to
/// `included_files` each demo that the policy keeps. Returns the demos that
/// were passed over, in the same order.
pub fn collect_ds_demos(
    entries: &Vec<SidecarEntry>,
    include_ks_only: bool,
    included_files: &mut Vec<IncludedDemo>,
) -> (skipped: Vec<SkippedDemo>)
    ensures
        final(included_files).deep_view() == old(included_files).deep_view() + included_of(
            sidecar_outcomes(entries.deep_view(), include_ks_only),
        ),
        skipped.deep_view() == skipped_of(sidecar_outcomes(entries.deep_view(), include_ks_only)),
{
    let ghost outcomes = sidecar_outcomes(entries.deep_view(), include_ks_only);
    let ghost before = included_files.deep_view();
    let mut skipped: Vec<SkippedDemo> = Vec::new();
    let mut i: usize = 0;
    assert(outcomes.take(0) =~= Seq::<Outcome>::empty());
    assert(included_files.deep_view() =~= before + included_of(outcomes.take(0)));
    assert(skipped.deep_view() =~= skipped_of(outcomes.take(0)));
    while i < entries.len()
        invariant
            i <= entries.len(),
            outcomes == sidecar_outcomes(entries.deep_view(), include_ks_only),
            included_files.deep_view() == before + included_of(outcomes.take(i as int)),
            skipped.deep_view() == skipped_of(outcomes.take(i as int)),
        decreases entries.len() - i,
    {
        let e = &entries[i];
        let ghost kept = included_files.deep_view();
        let ghost passed = skipped.deep_view();
        proof {
            outcomes.lemma_filter_map_take_succ(|o: Outcome| o.included(), i as int);
            outcomes.lemma_filter_map_take_succ(|o: Outcome| o.skipped(), i as int);
            assert(outcomes[i as int] == sidecar_outcome(e@, include_ks_only));
        }
        if e.entry.is_demo() {
            let cause = match &e.sidecar {
                Sidecar::Missing => Some(SkipCause::NoSidecar),
                Sidecar::Unreadable => Some(SkipCause::Excluded(Reason::ReadFailed)),
                Sidecar::Content(text) => {
                    let mut content = text.clone();
                    let (keep, reason) = should_include_demo(&mut content, include_ks_only);
                    if keep {
                        included_files.push(
                            IncludedDemo {
                                inclusion_reason: reason,
                                demo_path: e.entry.path.clone(),
                                events_json_path: Some(e.json_path.clone()),
                                id: SourceId::DemoSupport,
                            },
                        );
                        None
                    } else {
                        Some(SkipCause::Excluded(reason))
                    }
                },
            };
            match cause {
                Some(cause) => {
                    skipped.push(SkippedDemo { file_name: e.entry.file_name.clone(), cause });
                    assert(skipped.deep_view() =~= passed + seq![outcomes[i as int].skipped()->0]);
                    assert(included_files.deep_view() =~= kept);
                },
                None => {
                    assert(included_files.deep_view() =~= kept + seq![
                        outcomes[i as int].included()->0,
                    ]);
                    assert(skipped.deep_view() =~= passed);
                },
            }
        }
        i += 1;
    }
    assert(outcomes.take(i as int) =~= outcomes);
    skipped
}

/// A sidecar that lists no event keeps its demo, whatever the filter.
pub proof fn empty_events_are_included(content: Seq<char>, filter_ks_only: bool)
    requires
        strip_whitespace(content) == EMPTY_EVENTS@,
    ensures
        sidecar_events(content) is None,
        sidecar_decision(content, filter_ks_only) == (true, Reason::NoEvents),
{
}

/// With the killstreak filter on, a sidecar with an event that is no
/// killstreak drops its demo as one with a custom bookmark.
pub proof fn custom_bookmark_is_excluded(content: Seq<char>, i: int)
    requires
        sidecar_events(content) is Some,
        0 <= i < sidecar_events(content)->0.len(),
        !is_killstreak(sidecar_events(content)->0[i]),
    ensures
        sidecar_decision(content, true) == (false, Reason::HasCustomBookmark),
{
    let flags = killstreak_flags(sidecar_events(content))->0;
    assert(!flags[i]);
}

/// With the killstreak filter on, a sidecar whose events are all killstreaks
/// keeps its demo.
pub proof fn only_killstreaks_are_included(content: Seq<char>)
    requires
        sidecar_events(content) is Some,
        forall|i: int|
            0 <= i < sidecar_events(content)->0.len() ==> is_killstreak(
                #[trigger] sidecar_events(content)->0[i],
            ),
    ensures
        sidecar_decision(content, true) == (true, Reason::OnlyKillstreaks),
{
}

/// With the killstreak filter off, any sidecar but one that lists no event
/// drops its demo.
pub proof fn any_event_is_excluded(content: Seq<char>)
    requires
        strip_whitespace(content) != EMPTY_EVENTS@,
    ensures
        sidecar_decision(content, false) == (false, Reason::HasEvents),
{
}

/// What the collector appends depends on the listing and the filter alone:
/// two runs over one listing append the same records in the same order,
/// whatever the lists held before.
pub proof fn collecting_twice_gives_the_same(
    entries: Seq<SidecarEntryView>,
    filter_ks_only: bool,
    first_before: Seq<IncludedDemoView>,
    first_after: Seq<IncludedDemoView>,
    second_before: Seq<IncludedDemoView>,
    second_after: Seq<IncludedDemoView>,
)
    requires
        first_after == first_before + included_of(sidecar_outcomes(entries, filter_ks_only)),
        second_after == second_before + included_of(sidecar_outcomes(entries, filter_ks_only)),
    ensures
        first_after.len() - first_before.len() == second_after.len() - second_before.len(),
        first_after.skip(first_before.len() as int) == second_after.skip(
            second_before.len() as int,
        ),
{
    let appended = included_of(sidecar_outcomes(entries, filter_ks_only));
    assert(first_after.skip(first_before.len() as int) =~= appended);
    assert(second_after.skip(second_before.len() as int) =~= appended);
}

} // verus!
