use file_organizer::cli::{MyOrganizer, RunMode};
use file_organizer::engine::{ConflictPolicy, MoveOutcome};
use file_organizer::error::OrganizerError;
use file_organizer::scan::FileInfo;
use file_organizer::stats::OrganizeStats;
use file_organizer::tui::{
    bar_filled, box_rows, is_dismiss_key, percent, should_render, visible_window, CategoryMark,
    CategoryProgress, Key, PreviewApp, PreviewScreen, PreviewStep, ProgressApp, SummaryApp,
    SummaryTone,
};
use file_organizer::{format_size, truncate_str, Category};

fn file(name: &str, mime: &str, size: u64) -> FileInfo {
    FileInfo::new(name.to_string(), name.to_string(), Some(mime.to_string()), size)
}

fn preview() -> PreviewApp {
    PreviewApp::new(vec![
        file("a.png", "image/png", 10),
        file("b.pdf", "application/pdf", 20),
        file("c.png", "image/png", 30),
        file("d.png", "image/png", 40),
    ])
}

#[test]
fn preview_starts_on_overview_with_totals() {
    let app = preview();
    assert_eq!(app.total_size, 100);
    assert_eq!(app.screen, PreviewScreen::Overview);
    assert_eq!(app.category_totals(Category::Multimedia), (3, 80));
    assert_eq!(app.category_totals(Category::Docs), (1, 20));
    assert_eq!(app.category_totals(Category::Misc), (0, 0));
    assert_eq!(app.positions(Category::Multimedia), vec![0, 2, 3]);
}

#[test]
fn preview_digit_opens_detail_and_esc_returns() {
    let mut app = preview();
    assert_eq!(app.handle_key(Key::Char('1')), PreviewStep::Continue);
    assert_eq!(app.selected_category(), Some(Category::Multimedia));
    assert_eq!(app.handle_key(Key::Down), PreviewStep::Continue);
    assert_eq!(app.handle_key(Key::Down), PreviewStep::Continue);
    assert_eq!(app.handle_key(Key::Down), PreviewStep::Continue);
    assert_eq!(app.scroll_offset, 3);
    assert_eq!(app.handle_key(Key::Up), PreviewStep::Continue);
    assert_eq!(app.scroll_offset, 2);
    assert_eq!(app.handle_key(Key::Enter), PreviewStep::Continue);
    assert_eq!(app.handle_key(Key::Esc), PreviewStep::Continue);
    assert_eq!(app.screen, PreviewScreen::OverviewAfterBack);
    assert_eq!(app.scroll_offset, 0);
    assert!(!app.should_quit);
    assert_eq!(app.handle_key(Key::Esc), PreviewStep::Continue);
    assert_eq!(app.handle_key(Key::Esc), PreviewStep::Cancel);
    assert!(app.should_quit);
}

#[test]
fn preview_confirm_and_cancel() {
    let mut app = preview();
    assert_eq!(app.handle_key(Key::Char('9')), PreviewStep::Continue);
    assert_eq!(app.handle_key(Key::Enter), PreviewStep::Proceed);
    assert!(!app.should_quit);
    let mut other = preview();
    other.handle_key(Key::Char('2'));
    assert_eq!(other.handle_key(Key::Char('q')), PreviewStep::Cancel);
    assert!(other.should_quit);
}

#[test]
fn progress_counts_only_moved_files_toward_categories() {
    let mut app = ProgressApp::new(3);
    let a = file("a.png", "image/png", 5);
    app.update_current(&a);
    assert_eq!(app.current_file, "a.png");
    assert_eq!(app.current_mime, "image/png");
    assert_eq!(app.mark(Category::Multimedia), CategoryMark::Current);
    app.record(&a, &MoveOutcome::Moved("a.png".to_string()));
    app.record(&a, &MoveOutcome::Skipped);
    app.record(&a, &MoveOutcome::Failed(OrganizerError::IoError("e".to_string())));
    assert_eq!(app.stats.total_files, 3);
    assert_eq!((app.stats.moved, app.stats.skipped, app.stats.errors), (1, 1, 1));
    let mm = app.category_progress[0];
    assert_eq!((mm.count, mm.size), (1, 5));
    assert_eq!(app.percent_done(), 100);
    assert_eq!(app.mark(Category::Multimedia), CategoryMark::Done);
    assert_eq!(app.mark(Category::Docs), CategoryMark::Waiting);
    let unknown = FileInfo::new("m".to_string(), "m".to_string(), None, 0);
    app.update_current(&unknown);
    assert_eq!(app.current_mime, "unknown");
}

#[test]
fn progress_category_update() {
    let mut app = ProgressApp::new(1);
    app.update_category(Category::Compressed, 7);
    assert_eq!(app.category_progress[2].count, 1);
    assert_eq!(app.category_progress[2].size, 7);
    assert!(app.can_record(Category::Compressed, u64::MAX - 7));
    assert!(!app.can_record(Category::Compressed, u64::MAX - 6));
}

#[test]
fn render_throttle_and_last_file() {
    assert!(!should_render(10, 0, 5));
    assert!(should_render(50, 0, 5));
    assert!(should_render(0, 4, 5));
    assert!(!should_render(0, 3, 5));
}

#[test]
fn percent_and_bars() {
    assert_eq!(percent(1, 3), 33);
    assert_eq!(percent(0, 0), 0);
    assert_eq!(percent(29, 100), 29);
    assert_eq!(bar_filled(1, 2, 20), 10);
    assert_eq!(bar_filled(3, 3, 20), 20);
    assert_eq!(bar_filled(0, 0, 20), 0);
}

#[test]
fn summary_rates_and_tone() {
    let stats = OrganizeStats { total_files: 4, moved: 3, skipped: 1, errors: 0 };
    let progress = vec![
        CategoryProgress { count: 2, size: 1000 },
        CategoryProgress { count: 0, size: 0 },
        CategoryProgress { count: 1, size: 500 },
        CategoryProgress { count: 0, size: 0 },
    ];
    let app = SummaryApp::new(stats, progress, 2000, 1500);
    assert_eq!(app.success_rate(), 75);
    assert_eq!(app.tone(), SummaryTone::Completed);
    assert_eq!(app.bytes_per_second(), 750);
    assert_eq!(app.files_per_second_tenths(), 15);
    assert_eq!(app.breakdown(), vec![Category::Multimedia, Category::Compressed]);
    let idle = SummaryApp::new(OrganizeStats::new(), vec![CategoryProgress { count: 0, size: 0 }; 4], 0, 0);
    assert_eq!(idle.bytes_per_second(), 0);
    assert_eq!(idle.files_per_second_tenths(), 0);
    assert_eq!(idle.success_rate(), 0);
    assert_eq!(idle.tone(), SummaryTone::AllMoved);
    let bad = SummaryApp::new(OrganizeStats { total_files: 1, moved: 0, skipped: 0, errors: 1 }, vec![], 5, 0);
    assert_eq!(bad.tone(), SummaryTone::WithErrors);
}

#[test]
fn dismiss_keys() {
    assert!(is_dismiss_key(Key::Enter));
    assert!(is_dismiss_key(Key::Esc));
    assert!(is_dismiss_key(Key::Char('q')));
    assert!(!is_dismiss_key(Key::Char('x')));
    assert!(!is_dismiss_key(Key::Down));
}

#[test]
fn list_windows() {
    assert_eq!(visible_window(10, 4, 0), (0, 4));
    assert_eq!(visible_window(10, 4, 8), (8, 10));
    assert_eq!(visible_window(3, 4, 5), (3, 3));
    assert_eq!(box_rows(3, 10), (3, 0));
    assert_eq!(box_rows(10, 10), (5, 5));
    assert_eq!(box_rows(2, 3), (0, 2));
}

#[test]
fn sizes_for_people() {
    assert_eq!(format_size(0), "0 B");
    assert_eq!(format_size(1023), "1023 B");
    assert_eq!(format_size(1024), "1.00 KB");
    assert_eq!(format_size(1536), "1.50 KB");
    assert_eq!(format_size(2048), "2.00 KB");
    assert_eq!(format_size(1048576), "1.00 MB");
    assert_eq!(format_size(5 * 1073741824 + 536870912), "5.50 GB");
    assert_eq!(format_size(1029), "1.00 KB");
    assert_eq!(format_size(1034), "1.01 KB");
}

#[test]
fn names_cut_to_width() {
    assert_eq!(truncate_str("short", 10), "short");
    assert_eq!(truncate_str("a_long_file_name.txt", 10), "a_long_...");
    assert_eq!(truncate_str("abcdef", 2), "...");
    assert_eq!(truncate_str("abcdefghij", 6), "abc...");
    assert_eq!(truncate_str("éé", 3), "...");
    assert_eq!(truncate_str("éé", 4), "éé");
    assert_eq!(truncate_str("aéb", 4), "aéb");
    assert_eq!(truncate_str("aébcdef", 5), "a...");
    assert_eq!(truncate_str("héllo wörld", 8), "héll...");
}

#[test]
fn run_modes() {
    let mut o = MyOrganizer {
        path: "/x".to_string(),
        dry_run: true,
        verbose: false,
        conflict: ConflictPolicy::Skip,
        recursive: false,
        interactive: true,
    };
    assert_eq!(o.mode(), RunMode::InteractivePreview);
    o.dry_run = false;
    assert_eq!(o.mode(), RunMode::InteractiveRun);
    o.interactive = false;
    assert_eq!(o.mode(), RunMode::PlainRun);
    o.dry_run = true;
    assert_eq!(o.mode(), RunMode::PlainPreview);
}

#[test]
fn scrolling_down_is_not_bounded_by_the_list() {
    let mut app = preview();
    app.handle_key(Key::Char('4'));
    assert_eq!(app.handle_key(Key::Down), PreviewStep::Continue);
    assert_eq!(app.handle_key(Key::Right), PreviewStep::Continue);
    assert_eq!(app.scroll_offset, 2);
    assert_eq!(app.handle_key(Key::Left), PreviewStep::Continue);
    assert_eq!(app.scroll_offset, 1);
}
