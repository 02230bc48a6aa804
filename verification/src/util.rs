//! Directory entries, what makes one a demo, and the name under which the
//! kept demos are put out.

use chrono::Local;
use std::fmt::Write;
use vstd::prelude::*;

verus! {

/// The extension of a demo file.
pub const DEMO_EXTENSION: &'static str = "dem";

/// One entry of a directory listing.
#[derive(Clone, Debug, PartialEq, Eq)]
pub struct DirEntry {
    /// Where the entry is.
    pub path: String,
    /// The last component of `path`.
    pub file_name: String,
    /// The extension of `file_name`, without the dot, if it has one.
    pub extension: Option<String>,
}

/// A `DirEntry` as a mathematical value.
pub struct DirEntryView {
    pub path: Seq<char>,
    pub file_name: Seq<char>,
    pub extension: Option<Seq<char>>,
}

impl View for DirEntry {
    type V = DirEntryView;

    open spec fn view(&self) -> DirEntryView {
        DirEntryView {
            path: self.path@,
            file_name: self.file_name@,
            extension: self.extension.deep_view(),
        }
    }
}

impl DeepView for DirEntry {
    type V = DirEntryView;

    open spec fn deep_view(&self) -> DirEntryView {
        self@
    }
}

/// Whether an extension is that of a demo file.
pub open spec fn is_demo_extension(ext: Option<Seq<char>>) -> bool {
    ext == Some(DEMO_EXTENSION@)
}

/// Whether a file with the extension `ext` is a demo.
pub fn is_demo(ext: &Option<&str>) -> (b: bool)
    ensures
        b == is_demo_extension(ext.deep_view()),
{
    match ext {
        Some(e) => String::from_str(e) == String::from_str(DEMO_EXTENSION),
        None => false,
    }
}

impl DirEntry {
    /// Whether the entry is a demo file.
    pub fn is_demo(&self) -> (b: bool)
        ensures
            b == is_demo_extension(self@.extension),
    {
        match &self.extension {
            Some(e) => *e == String::from_str(DEMO_EXTENSION),
            None => false,
        }
    }
}

/// What the name of every output begins with.
pub const OUTPUT_PREFIX: &'static str = "demclean-";

/// How the local time is written in the name of an output: year, month, day,
/// hour, minute and second.
pub const STAMP_FORMAT: &'static str = "%Y-%m-%d-%H-%M-%S";

/// Asks `chrono::Local::now` for the time, takes its `naive_local` and writes
/// it as `format` says, with `NaiveDateTime::format`; `None` where chrono
/// cannot write the time in that format. Trusted, and nothing is claimed of
/// the text: it changes with the clock.
///
/// chrono stops the program, whatever `format` is, on a machine in one of
/// these states: the clock stands before 1970 or beyond the times that chrono
/// can hold; the time zone data of the machine yields no local time for the
/// time of the clock, or an offset that is out of range; the local time, which
/// is the time of the clock moved by that offset, is beyond the times that
/// chrono can hold.
#[verifier::external_body]
fn local_time(format: &str) -> (stamp: Option<String>) {
    let mut stamp = String::new();
    match write!(stamp, "{}", Local::now().naive_local().format(format)) {
        Ok(()) => Some(stamp),
        Err(_) => None,
    }
}

/// The name of an output that is made at the time `stamp`.
pub open spec fn output_name_at(stamp: Seq<char>) -> Seq<char> {
    OUTPUT_PREFIX@ + stamp
}

/// The name of an output that is made at the time `stamp`.
pub fn output_name(stamp: &str) -> (name: String)
    ensures
        name@ == output_name_at(stamp@),
{
    String::from_str(OUTPUT_PREFIX).concat(stamp)
}

/// The name of an output that is made now, by the local time; `None` where
/// the time could not be written. On a machine whose clock or time zone data
/// chrono cannot work with, the program stops.
pub fn get_output_name() -> (name: Option<String>)
    ensures
        name is Some ==> exists|stamp: Seq<char>| name->0@ == output_name_at(stamp),
{
    output_name_of(local_time(STAMP_FORMAT))
}

/// The name of an output, given what the clock gave: the name that is made at
/// that time where the time could be written, none where it could not.
pub open spec fn output_name_for(stamp: Option<Seq<char>>) -> Option<Seq<char>> {
    match stamp {
        Some(text) => Some(output_name_at(text)),
        None => None,
    }
}

/// The name of an output, given what the clock gave.
pub fn output_name_of(stamp: Option<String>) -> (name: Option<String>)
    ensures
        name.deep_view() == output_name_for(stamp.deep_view()),
{
    match stamp {
        Some(text) => Some(output_name(text.as_str())),
        None => None,
    }
}

} // verus!
