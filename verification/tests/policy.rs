use demclean::demo::{IncludedDemo, Reason, SourceId};
use demclean::policy::decide;
use demclean::text::eq_ignore_ascii_case;
use demclean::util::{is_demo, DirEntry};

#[test]
fn no_labels_are_included_whatever_the_filter() {
    assert_eq!(decide(None, false), (true, Reason::NoEvents));
    assert_eq!(decide(None, true), (true, Reason::NoEvents));
}

#[test]
fn any_labels_are_excluded_without_the_filter() {
    assert_eq!(decide(Some(&vec![true]), false), (false, Reason::HasEvents));
    assert_eq!(decide(Some(&vec![false]), false), (false, Reason::HasEvents));
    assert_eq!(decide(Some(&vec![true, false]), false), (false, Reason::HasEvents));
    assert_eq!(decide(Some(&vec![]), false), (false, Reason::HasEvents));
}

#[test]
fn only_killstreaks_are_included_with_the_filter() {
    assert_eq!(decide(Some(&vec![true]), true), (true, Reason::OnlyKillstreaks));
    assert_eq!(decide(Some(&vec![true, true, true]), true), (true, Reason::OnlyKillstreaks));
}

#[test]
fn an_empty_label_list_counts_as_only_killstreaks() {
    assert_eq!(decide(Some(&vec![]), true), (true, Reason::OnlyKillstreaks));
}

#[test]
fn one_custom_bookmark_excludes_with_the_filter() {
    assert_eq!(decide(Some(&vec![false]), true), (false, Reason::HasCustomBookmark));
    assert_eq!(decide(Some(&vec![true, false, true]), true), (false, Reason::HasCustomBookmark));
    assert_eq!(decide(Some(&vec![true, true, false]), true), (false, Reason::HasCustomBookmark));
}

#[test]
fn reasons_have_their_wording() {
    assert_eq!(Reason::NoEvents.message(), "no events");
    assert_eq!(Reason::HasEvents.message(), "has events");
    assert_eq!(Reason::OnlyKillstreaks.message(), "has only killstreak events");
    assert_eq!(Reason::HasCustomBookmark.message(), "has custom bookmark");
    assert_eq!(Reason::ReadFailed.message(), "failed to read json");
}

#[test]
fn sources_name_their_subfolder() {
    assert_eq!(SourceId::DemoSupport.name(), "demosupport");
    assert_eq!(SourceId::Prec.name(), "prec");
}

#[test]
fn ascii_case_is_ignored_in_comparison() {
    assert!(eq_ignore_ascii_case("killstreak", "killstreak"));
    assert!(eq_ignore_ascii_case("Killstreak", "killstreak"));
    assert!(eq_ignore_ascii_case("KILLSTREAK", "kIlLsTrEaK"));
    assert!(eq_ignore_ascii_case("", ""));
    assert!(eq_ignore_ascii_case("a-Z_09", "A-z_09"));
}

#[test]
fn different_texts_differ_whatever_the_case() {
    assert!(!eq_ignore_ascii_case("killstreak", "killstreaks"));
    assert!(!eq_ignore_ascii_case("killstreak", "bookmark"));
    assert!(!eq_ignore_ascii_case("", "a"));
    assert!(!eq_ignore_ascii_case("@", "`"));
    assert!(!eq_ignore_ascii_case("[", "{"));
}

#[test]
fn only_ascii_letters_are_folded() {
    assert!(!eq_ignore_ascii_case("\u{c9}t\u{e9}", "\u{e9}t\u{e9}"));
    assert!(eq_ignore_ascii_case("\u{e9}T\u{e9}", "\u{e9}t\u{e9}"));
    assert!(!eq_ignore_ascii_case("\u{e9}", "e"));
}

#[test]
fn the_demo_extension_is_dem() {
    assert!(is_demo(&Some("dem")));
    assert!(!is_demo(&Some("DEM")));
    assert!(!is_demo(&Some("json")));
    assert!(!is_demo(&Some("")));
    assert!(!is_demo(&Some("demo")));
    assert!(!is_demo(&None));
}

#[test]
fn an_entry_is_a_demo_by_its_extension() {
    let demo = DirEntry {
        path: "/d/a.dem".to_string(),
        file_name: "a.dem".to_string(),
        extension: Some("dem".to_string()),
    };
    let text = DirEntry {
        path: "/d/dem.txt".to_string(),
        file_name: "dem.txt".to_string(),
        extension: Some("txt".to_string()),
    };
    let bare = DirEntry { path: "/d/dem".to_string(), file_name: "dem".to_string(), extension: None };
    assert!(demo.is_demo());
    assert!(!text.is_demo());
    assert!(!bare.is_demo());
}

fn record() -> IncludedDemo {
    IncludedDemo {
        inclusion_reason: Reason::NoEvents,
        demo_path: "/d/a.dem".to_string(),
        events_json_path: Some("/d/a.json".to_string()),
        id: SourceId::DemoSupport,
    }
}

#[test]
fn a_copy_leaves_the_record_as_it_was() {
    let mut r = record();
    r.move_to(true, "/out/demosupport/a.dem".to_string(), Some("/out/demosupport/a.json".to_string()));
    assert_eq!(r, record());
}

#[test]
fn a_move_points_the_record_to_the_new_places() {
    let mut r = record();
    r.move_to(false, "/out/demosupport/a.dem".to_string(), Some("/out/demosupport/a.json".to_string()));
    assert_eq!(r.demo_path, "/out/demosupport/a.dem");
    assert_eq!(r.events_json_path, Some("/out/demosupport/a.json".to_string()));
    assert_eq!(r.inclusion_reason, Reason::NoEvents);
    assert_eq!(r.id, SourceId::DemoSupport);
}

#[test]
fn a_move_of_the_demo_alone_keeps_the_sidecar_in_place() {
    let mut r = record();
    r.move_to(false, "/out/demosupport/a.dem".to_string(), None);
    assert_eq!(r.demo_path, "/out/demosupport/a.dem");
    assert_eq!(r.events_json_path, Some("/d/a.json".to_string()));
}

#[test]
fn a_move_gives_no_sidecar_to_a_record_without_one() {
    let mut r = IncludedDemo {
        inclusion_reason: Reason::OnlyKillstreaks,
        demo_path: "/d/a.dem".to_string(),
        events_json_path: None,
        id: SourceId::Prec,
    };
    r.move_to(false, "/out/prec/a.dem".to_string(), Some("/out/prec/a.json".to_string()));
    assert_eq!(r.demo_path, "/out/prec/a.dem");
    assert_eq!(r.events_json_path, None);
    assert_eq!(r.id, SourceId::Prec);
}

#[test]
fn an_output_name_is_the_prefix_and_the_time() {
    assert_eq!(util_output_name("2023-11-27-22-01-09"), "demclean-2023-11-27-22-01-09");
    assert_eq!(util_output_name(""), "demclean-");
}

fn util_output_name(stamp: &str) -> String {
    demclean::util::output_name(stamp)
}

#[test]
fn the_output_name_of_now_is_stamped_with_six_numbers() {
    let name = demclean::util::get_output_name().unwrap();
    let stamp = name.strip_prefix("demclean-").unwrap();
    let parts: Vec<&str> = stamp.split('-').collect();
    assert_eq!(parts.len(), 6);
    for part in &parts {
        assert!(!part.is_empty());
        assert!(part.chars().all(|c| c.is_ascii_digit()));
    }
    assert_eq!(parts[1].len(), 2);
    assert_eq!(parts[2].len(), 2);
    assert_eq!(parts[3].len(), 2);
    assert_eq!(parts[4].len(), 2);
    assert_eq!(parts[5].len(), 2);
}

fn two_records() -> Vec<IncludedDemo> {
    vec![
        record(),
        IncludedDemo {
            inclusion_reason: Reason::OnlyKillstreaks,
            demo_path: "/d/b.dem".to_string(),
            events_json_path: None,
            id: SourceId::Prec,
        },
        IncludedDemo {
            inclusion_reason: Reason::OnlyKillstreaks,
            demo_path: "/d/c.dem".to_string(),
            events_json_path: Some("/d/c.json".to_string()),
            id: SourceId::DemoSupport,
        },
    ]
}

#[test]
fn exported_lines_hold_each_demo_and_its_sidecar() {
    assert_eq!(
        demclean::output::export_lines(&two_records(), true),
        vec!["/d/a.dem", "/d/a.json", "/d/b.dem", "/d/c.dem", "/d/c.json"]
    );
}

#[test]
fn exported_lines_without_sidecars_hold_the_demos_alone() {
    assert_eq!(
        demclean::output::export_lines(&two_records(), false),
        vec!["/d/a.dem", "/d/b.dem", "/d/c.dem"]
    );
}

#[test]
fn nothing_is_exported_of_no_demos() {
    assert_eq!(demclean::output::export_lines(&Vec::new(), true), Vec::<String>::new());
    assert_eq!(demclean::output::export_lines(&Vec::new(), false), Vec::<String>::new());
}

#[test]
fn a_written_time_gives_a_name_and_none_gives_none() {
    assert_eq!(
        demclean::util::output_name_of(Some("2023-11-27-22-01-09".to_string())),
        Some("demclean-2023-11-27-22-01-09".to_string())
    );
    assert_eq!(demclean::util::output_name_of(Some(String::new())), Some("demclean-".to_string()));
    assert_eq!(demclean::util::output_name_of(None), None);
}

#[test]
fn whitespace_is_what_the_standard_library_calls_whitespace() {
    for n in 0..=0x10ffffu32 {
        if let Some(c) = char::from_u32(n) {
            assert_eq!(demclean::text::char_is_whitespace(c), c.is_whitespace(), "U+{:04X}", n);
        }
    }
}

#[test]
fn spaces_tabs_and_line_ends_are_whitespace() {
    for c in [' ', '\t', '\n', '\r', '\u{b}', '\u{c}', '\u{85}', '\u{a0}', '\u{1680}', '\u{2000}',
        '\u{200a}', '\u{2028}', '\u{2029}', '\u{202f}', '\u{205f}', '\u{3000}']
    {
        assert!(demclean::text::char_is_whitespace(c));
    }
}

#[test]
fn letters_marks_and_invisible_joiners_are_no_whitespace() {
    for c in ['a', '0', '{', '"', '\u{8}', '\u{e}', '\u{1f}', '\u{84}', '\u{86}', '\u{200b}',
        '\u{200d}', '\u{2060}', '\u{feff}', '\u{180e}', '\u{10ffff}', '\0']
    {
        assert!(!demclean::text::char_is_whitespace(c));
    }
}
