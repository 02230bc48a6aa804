//! The records that the collectors produce.

use vstd::prelude::*;

verus! {

/// Why a demo was kept or dropped.
#[derive(Clone, Copy, Debug, PartialEq, Eq, Structural)]
pub enum Reason {
    /// Nothing is annotated for the demo.
    NoEvents,
    /// Something is annotated and only untouched demos are kept.
    HasEvents,
    /// Every annotation is a killstreak.
    OnlyKillstreaks,
    /// Some annotation is not a killstreak.
    HasCustomBookmark,
    /// The annotations could not be read.
    ReadFailed,
}

impl Reason {
    /// The wording shown to the user.
    pub open spec fn text(self) -> Seq<char> {
        match self {
            Reason::NoEvents => "no events"@,
            Reason::HasEvents => "has events"@,
            Reason::OnlyKillstreaks => "has only killstreak events"@,
            Reason::HasCustomBookmark => "has custom bookmark"@,
            Reason::ReadFailed => "failed to read json"@,
        }
    }

    pub fn message(&self) -> (s: &'static str)
        ensures
            s@ == self.text(),
    {
        match self {
            Reason::NoEvents => "no events",
            Reason::HasEvents => "has events",
            Reason::OnlyKillstreaks => "has only killstreak events",
            Reason::HasCustomBookmark => "has custom bookmark",
            Reason::ReadFailed => "failed to read json",
        }
    }
}

/// Which collector produced a record.
#[derive(Clone, Copy, Debug, PartialEq, Eq, Structural)]
pub enum SourceId {
    /// One sidecar file per demo.
    DemoSupport,
    /// One shared log for the directory.
    Prec,
}

impl SourceId {
    /// The name of the output subfolder for records of this source.
    pub open spec fn text(self) -> Seq<char> {
        match self {
            SourceId::DemoSupport => "demosupport"@,
            SourceId::Prec => "prec"@,
        }
    }

    pub fn name(&self) -> (s: &'static str)
        ensures
            s@ == self.text(),
    {
        match self {
            SourceId::DemoSupport => "demosupport",
            SourceId::Prec => "prec",
        }
    }
}

/// A demo that passed the inclusion policy.
#[derive(Clone, Debug, PartialEq, Eq)]
pub struct IncludedDemo {
    pub inclusion_reason: Reason,
    /// Where the demo file is.
    pub demo_path: String,
    /// Where the demo's sidecar is; only the sidecar source sets it.
    pub events_json_path: Option<String>,
    pub id: SourceId,
}

/// An `IncludedDemo` as a mathematical value.
pub struct IncludedDemoView {
    pub inclusion_reason: Reason,
    pub demo_path: Seq<char>,
    pub events_json_path: Option<Seq<char>>,
    pub id: SourceId,
}

impl View for IncludedDemo {
    type V = IncludedDemoView;

    open spec fn view(&self) -> IncludedDemoView {
        IncludedDemoView {
            inclusion_reason: self.inclusion_reason,
            demo_path: self.demo_path@,
            events_json_path: self.events_json_path.deep_view(),
            id: self.id,
        }
    }
}

impl DeepView for IncludedDemo {
    type V = IncludedDemoView;

    open spec fn deep_view(&self) -> IncludedDemoView {
        self@
    }
}

impl IncludedDemoView {
    /// The record after its files were relocated to `demo_path` and, for the
    /// sidecar, `events_json_path`. A copy leaves the record as it was; a move
    /// makes it point to the new places. A record without a sidecar stays
    /// without one, and a sidecar for which no new place is given stays put.
    pub open spec fn moved(
        self,
        copy: bool,
        demo_path: Seq<char>,
        events_json_path: Option<Seq<char>>,
    ) -> IncludedDemoView {
        if copy {
            self
        } else {
            IncludedDemoView {
                inclusion_reason: self.inclusion_reason,
                demo_path: demo_path,
                events_json_path: if self.events_json_path is Some && events_json_path is Some {
                    events_json_path
                } else {
                    self.events_json_path
                },
                id: self.id,
            }
        }
    }
}

impl IncludedDemo {
    /// Records that the demo, and the sidecar if a new place is given for it,
    /// now have a copy at the given places (`copy`) or were moved there.
    pub fn move_to(&mut self, copy: bool, demo_path: String, events_json_path: Option<String>)
        ensures
            final(self)@ == old(self)@.moved(
                copy,
                demo_path@,
                events_json_path.deep_view(),
            ),
    {
        if !copy {
            self.demo_path = demo_path;
            if self.events_json_path.is_some() && events_json_path.is_some() {
                self.events_json_path = events_json_path;
            }
        }
    }
}

/// Why a demo was left out of the result.
#[derive(Clone, Copy, Debug, PartialEq, Eq, Structural)]
pub enum SkipCause {
    /// The demo has no sidecar.
    NoSidecar,
    /// The policy excluded the demo.
    Excluded(Reason),
}

/// A demo that a collector passed over, for the user to be told.
#[derive(Clone, Debug, PartialEq, Eq)]
pub struct SkippedDemo {
    pub file_name: String,
    pub cause: SkipCause,
}

/// A `SkippedDemo` as a mathematical value.
pub struct SkippedDemoView {
    pub file_name: Seq<char>,
    pub cause: SkipCause,
}

impl View for SkippedDemo {
    type V = SkippedDemoView;

    open spec fn view(&self) -> SkippedDemoView {
        SkippedDemoView { file_name: self.file_name@, cause: self.cause }
    }
}

impl DeepView for SkippedDemo {
    type V = SkippedDemoView;

    open spec fn deep_view(&self) -> SkippedDemoView {
        self@
    }
}

/// What a collector makes of one directory entry.
pub enum Outcome {
    /// The entry is no demo.
    Ignored,
    /// The entry is a demo that was passed over.
    Skipped(SkippedDemoView),
    /// The entry is a demo that was kept.
    Included(IncludedDemoView),
}

impl Outcome {
    pub open spec fn included(self) -> Option<IncludedDemoView> {
        match self {
            Outcome::Included(d) => Some(d),
            _ => None,
        }
    }

    pub open spec fn skipped(self) -> Option<SkippedDemoView> {
        match self {
            Outcome::Skipped(d) => Some(d),
            _ => None,
        }
    }
}

/// The demos that were kept, in the order of their entries.
pub open spec fn included_of(outcomes: Seq<Outcome>) -> Seq<IncludedDemoView> {
    outcomes.filter_map(|o: Outcome| o.included())
}

/// The demos that were passed over, in the order of their entries.
pub open spec fn skipped_of(outcomes: Seq<Outcome>) -> Seq<SkippedDemoView> {
    outcomes.filter_map(|o: Outcome| o.skipped())
}

} // verus!
