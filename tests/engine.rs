use file_organizer::engine::{ConflictPolicy, Destinations, MoveOutcome, MovePlan};
use file_organizer::error::{check_root, OrganizerError};
use file_organizer::scan::{should_descend, FileInfo};
use file_organizer::stats::{tally, OrganizeStats};
use file_organizer::tui::ProgressApp;
use file_organizer::{unique_name, Category};

fn file(name: &str, mime: &str, size: u64) -> FileInfo {
    FileInfo::new(format!("/root/{}", name), name.to_string(), Some(mime.to_string()), size)
}

fn moved_name(plan: &MovePlan) -> Option<String> {
    match plan.finish(None) {
        MoveOutcome::Moved(n) => Some(n),
        _ => None,
    }
}

#[test]
fn test_generate_unique_filename() {
    let taken = vec!["test.txt".to_string()];
    let unique = unique_name("test.txt", &taken);
    assert_eq!(unique, "test_1.txt");
}

#[test]
fn test_organize_stats_new() {
    let stats = OrganizeStats::new();
    assert_eq!(stats.total_files, 0);
    assert_eq!(stats.moved, 0);
    assert_eq!(stats.skipped, 0);
    assert_eq!(stats.errors, 0);
}

#[test]
fn rename_takes_first_free_suffix() {
    let one = vec!["report.pdf".to_string()];
    assert_eq!(unique_name("report.pdf", &one), "report_1.pdf");
    let two = vec!["report.pdf".to_string(), "report_1.pdf".to_string()];
    assert_eq!(unique_name("report.pdf", &two), "report_2.pdf");
    let gap = vec![
        "report.pdf".to_string(),
        "report_1.pdf".to_string(),
        "report_3.pdf".to_string(),
    ];
    assert_eq!(unique_name("report.pdf", &gap), "report_2.pdf");
}

#[test]
fn rename_keeps_only_last_extension_and_dotfiles() {
    assert_eq!(unique_name("archive.tar.gz", &vec![]), "archive.tar_1.gz");
    assert_eq!(unique_name(".bashrc", &vec![]), ".bashrc_1");
    assert_eq!(unique_name("README", &vec!["README_1".to_string()]), "README_2");
}

#[test]
fn rename_reaches_two_digit_suffixes() {
    let mut taken = vec!["a.txt".to_string()];
    for k in 1..=10 {
        taken.push(format!("a_{}.txt", k));
    }
    assert_eq!(unique_name("a.txt", &taken), "a_11.txt");
}

#[test]
fn two_files_move_into_their_folders() {
    let files = vec![file("photo.png", "image/png", 2048), file("notes.txt", "text/plain", 100)];
    let mut dest = Destinations::new();
    let mut app = ProgressApp::new(files.len());
    for f in &files {
        let plan = dest.plan(f, ConflictPolicy::Skip, false);
        assert!(plan.transfer);
        assert!(plan.create_folder);
        dest.commit(&plan);
        let outcome = plan.finish(None);
        app.record(f, &outcome);
    }
    assert_eq!(app.stats.total_files, 2);
    assert_eq!(app.stats.moved, 2);
    assert_eq!(app.stats.skipped, 0);
    assert_eq!(app.stats.errors, 0);
    let mm = app.category_progress[Category::Multimedia.index()];
    let docs = app.category_progress[Category::Docs.index()];
    assert_eq!((mm.count, mm.size), (1, 2048));
    assert_eq!((docs.count, docs.size), (1, 100));
    assert_eq!(dest.multimedia.names, vec!["photo.png".to_string()]);
    assert_eq!(dest.docs.names, vec!["notes.txt".to_string()]);
}

#[test]
fn overwrite_replaces_existing_file() {
    let mut dest = Destinations::new();
    dest.record_folder(Category::Docs, vec!["notes.txt".to_string()]);
    let f = file("notes.txt", "text/plain", 100);
    let plan = dest.plan(&f, ConflictPolicy::Overwrite, false);
    assert!(plan.replace_existing);
    assert!(plan.transfer);
    assert!(!plan.create_folder);
    assert_eq!(moved_name(&plan), Some("notes.txt".to_string()));
}

#[test]
fn skip_leaves_taken_name_alone() {
    let mut dest = Destinations::new();
    dest.record_folder(Category::Docs, vec!["notes.txt".to_string()]);
    let f = file("notes.txt", "text/plain", 100);
    let plan = dest.plan(&f, ConflictPolicy::Skip, false);
    assert!(!plan.replace_existing && !plan.transfer && !plan.create_folder);
    assert!(matches!(plan.finish(None), MoveOutcome::Skipped));
}

#[test]
fn rename_plan_never_skips() {
    let mut dest = Destinations::new();
    dest.record_folder(Category::Docs, vec!["report.pdf".to_string()]);
    let f = file("report.pdf", "application/pdf", 10);
    let plan = dest.plan(&f, ConflictPolicy::Rename, false);
    assert!(!plan.replace_existing);
    assert_eq!(moved_name(&plan), Some("report_1.pdf".to_string()));
    dest.commit(&plan);
    let again = dest.plan(&f, ConflictPolicy::Rename, false);
    assert_eq!(moved_name(&again), Some("report_2.pdf".to_string()));
}

#[test]
fn failed_step_gives_failed_outcome() {
    let dest = Destinations::new();
    let f = file("a.zip", "application/zip", 1);
    let plan = dest.plan(&f, ConflictPolicy::Skip, false);
    let outcome = plan.finish(Some(OrganizerError::IoError("denied".to_string())));
    assert!(matches!(outcome, MoveOutcome::Failed(OrganizerError::IoError(ref m)) if m == "denied"));
}

#[test]
fn dry_run_decides_like_real_run() {
    let files = vec![
        file("a.pdf", "application/pdf", 1),
        file("a.pdf", "application/pdf", 2),
        file("b.png", "image/png", 3),
        file("a.pdf", "application/pdf", 4),
    ];
    for policy in [ConflictPolicy::Skip, ConflictPolicy::Overwrite, ConflictPolicy::Rename] {
        let mut dry = Destinations::new();
        dry.record_folder(Category::Multimedia, vec!["b.png".to_string()]);
        let mut real = Destinations::new();
        real.record_folder(Category::Multimedia, vec!["b.png".to_string()]);
        let dry_plans = dry.plan_all(&files, policy, true);
        let real_plans = real.plan_all(&files, policy, false);
        assert_eq!(dry_plans.len(), real_plans.len());
        for (d, r) in dry_plans.iter().zip(real_plans.iter()) {
            assert_eq!(d.destination, r.destination);
            assert!(!d.transfer && !d.create_folder && !d.replace_existing);
        }
    }
}

#[test]
fn rename_run_gives_each_duplicate_its_own_name() {
    let files = vec![
        file("a.pdf", "application/pdf", 1),
        file("a.pdf", "application/pdf", 2),
        file("a.pdf", "application/pdf", 3),
    ];
    let mut dest = Destinations::new();
    let plans = dest.plan_all(&files, ConflictPolicy::Rename, false);
    let names: Vec<Option<String>> = plans.iter().map(|p| p.destination.clone()).collect();
    assert_eq!(
        names,
        vec![
            Some("a.pdf".to_string()),
            Some("a_1.pdf".to_string()),
            Some("a_2.pdf".to_string())
        ]
    );
    assert!(plans[0].create_folder && !plans[1].create_folder);
}

#[test]
fn second_skip_run_moves_nothing() {
    let files = vec![
        file("x.txt", "text/plain", 1),
        file("y.png", "image/png", 2),
        file("x.txt", "text/plain", 3),
    ];
    let mut dest = Destinations::new();
    let first = dest.plan_all(&files, ConflictPolicy::Skip, false);
    assert!(first[0].transfer && first[1].transfer && !first[2].transfer);
    let remaining = vec![file("x.txt", "text/plain", 3)];
    let second = dest.plan_all(&remaining, ConflictPolicy::Skip, false);
    assert!(second.iter().all(|p| p.destination.is_none() && !p.transfer));
    assert_eq!(dest.docs.names, vec!["x.txt".to_string()]);
}

#[test]
fn scanner_skips_category_folders() {
    assert!(!should_descend("Misc", true));
    assert!(!should_descend("Docs", true));
    assert!(should_descend("photos", true));
    assert!(should_descend("misc", true));
    assert!(!should_descend("photos", false));
}

#[test]
fn scanner_guesses_type_from_name() {
    let png = FileInfo::from_entry("/r/photo.png".to_string(), "photo.png".to_string(), 2048);
    assert_eq!(png.mime_type.as_deref(), Some("image/png"));
    assert_eq!(png.category, Category::Multimedia);
    let txt = FileInfo::from_entry("/r/notes.txt".to_string(), "notes.txt".to_string(), 100);
    assert_eq!(txt.mime_type.as_deref(), Some("text/plain"));
    assert_eq!(txt.category, Category::Docs);
    let none = FileInfo::from_entry("/r/Makefile".to_string(), "Makefile".to_string(), 5);
    assert_eq!(none.mime_type, None);
    assert_eq!(none.category, Category::Misc);
}

#[test]
fn totals_balance_after_a_run() {
    let outcomes = vec![
        MoveOutcome::Moved("a".to_string()),
        MoveOutcome::Skipped,
        MoveOutcome::Failed(OrganizerError::IoError("x".to_string())),
        MoveOutcome::Moved("b".to_string()),
    ];
    let stats = tally(&outcomes);
    assert_eq!(stats.total_files, 4);
    assert_eq!((stats.moved, stats.skipped, stats.errors), (2, 1, 1));
    assert_eq!(stats.total_files, stats.moved + stats.skipped + stats.errors);
}

#[test]
fn root_checks() {
    assert!(check_root("/x", true, true).is_ok());
    assert!(matches!(check_root("/x", false, false), Err(OrganizerError::PathNotFound(ref p)) if p == "/x"));
    assert!(matches!(check_root("/x", true, false), Err(OrganizerError::PathNotDirectory(ref p)) if p == "/x"));
}

#[test]
fn error_messages() {
    assert_eq!(OrganizerError::IoError("boom".to_string()).message(), "I/O error: boom");
    assert_eq!(OrganizerError::PathNotFound("/a".to_string()).message(), "Path not found: /a");
    assert_eq!(
        OrganizerError::PathNotDirectory("/a".to_string()).message(),
        "Path is not a directory: /a"
    );
    assert_eq!(OrganizerError::InvalidPath("..".to_string()).message(), "Invalid path: ..");
}

#[test]
fn policy_words() {
    assert_eq!(ConflictPolicy::parse("skip"), Some(ConflictPolicy::Skip));
    assert_eq!(ConflictPolicy::parse("overwrite"), Some(ConflictPolicy::Overwrite));
    assert_eq!(ConflictPolicy::parse("rename"), Some(ConflictPolicy::Rename));
    assert_eq!(ConflictPolicy::parse("Skip"), None);
}

#[test]
fn settle_commits_only_on_success() {
    let mut dest = Destinations::new();
    let f = file("a.zip", "application/zip", 1);
    let plan = dest.plan(&f, ConflictPolicy::Skip, false);
    let failed = dest.settle(&plan, Some(OrganizerError::IoError("denied".to_string())));
    assert!(matches!(failed, MoveOutcome::Failed(_)));
    assert!(dest.compressed.names.is_empty());
    assert!(!dest.compressed.exists);
    let done = dest.settle(&plan, None);
    assert!(matches!(done, MoveOutcome::Moved(ref n) if n == "a.zip"));
    assert_eq!(dest.compressed.names, vec!["a.zip".to_string()]);
    assert!(dest.compressed.exists);
}
