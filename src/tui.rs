//! The three interactive screens as state machines: preview, progress and summary.
//!
//! Each screen's state and its reaction to input or to a processed file lives here; the
//! program draws the state and feeds in the keys and the outcomes.
use vstd::prelude::*;
use vstd::string::*;
use crate::category::{Category, CATEGORY_COUNT};
use crate::engine::MoveOutcome;
use crate::scan::FileInfo;
use crate::stats::{outcome_kind, OrganizeStats};

verus! {

/// A key as the screens see it.
#[derive(Clone, Copy, Debug, PartialEq, Eq, Structural)]
pub enum Key {
    Char(char),
    Enter,
    Esc,
    Up,
    Down,
    Left,
    Right,
    Other,
}

/// Where the preview stands.
#[derive(Clone, Copy, Debug, PartialEq, Eq, Structural)]
pub enum PreviewScreen {
    /// All four categories with their counts and sizes.
    Overview,
    /// The overview, just returned to from a category: one more Esc, as from a held key, is
    /// absorbed rather than taken as cancel.
    OverviewAfterBack,
    /// Every file of one category, scrolled.
    CategoryDetail(Category),
}

/// What the preview asks of the program after a key.
#[derive(Clone, Copy, Debug, PartialEq, Eq, Structural)]
pub enum PreviewStep {
    /// Stay on the preview.
    Continue,
    /// Leave the preview and go on.
    Proceed,
    /// Leave the preview and stop.
    Cancel,
}

/// The category that the digit `c` selects in the overview: `1` to `4`.
pub open spec fn digit_category(c: char) -> Option<Category> {
    if c == '1' {
        Some(Category::Multimedia)
    } else if c == '2' {
        Some(Category::Docs)
    } else if c == '3' {
        Some(Category::Compressed)
    } else if c == '4' {
        Some(Category::Misc)
    } else {
        None
    }
}

/// The preview's transition table: the next screen and the step after `key`.
pub open spec fn preview_transition(screen: PreviewScreen, key: Key) -> (PreviewScreen, PreviewStep) {
    let overview = screen is Overview || screen is OverviewAfterBack;
    match key {
        Key::Char('q') => (screen, PreviewStep::Cancel),
        Key::Esc => match screen {
            PreviewScreen::CategoryDetail(_) => (PreviewScreen::OverviewAfterBack, PreviewStep::Continue),
            PreviewScreen::OverviewAfterBack => (PreviewScreen::Overview, PreviewStep::Continue),
            PreviewScreen::Overview => (PreviewScreen::Overview, PreviewStep::Cancel),
        },
        Key::Enter => if overview {
            (PreviewScreen::Overview, PreviewStep::Proceed)
        } else {
            (screen, PreviewStep::Continue)
        },
        Key::Char(c) => if overview && digit_category(c) is Some {
            (PreviewScreen::CategoryDetail(digit_category(c)->0), PreviewStep::Continue)
        } else if overview {
            (PreviewScreen::Overview, PreviewStep::Continue)
        } else {
            (screen, PreviewStep::Continue)
        },
        _ => if overview {
            (PreviewScreen::Overview, PreviewStep::Continue)
        } else {
            (screen, PreviewStep::Continue)
        },
    }
}

/// The scroll offset after `key`: reset when the screen changes, moved by one by the arrow
/// keys in a category's list, down to zero and up to the largest `usize`.
pub open spec fn scroll_after(screen: PreviewScreen, offset: nat, key: Key) -> nat {
    let next = preview_transition(screen, key).0;
    if next != screen || !(screen is CategoryDetail) {
        0
    } else if key == Key::Up || key == Key::Left {
        if offset > 0 { (offset - 1) as nat } else { 0 }
    } else if key == Key::Down || key == Key::Right {
        if offset < usize::MAX { offset + 1 } else { offset }
    } else {
        offset
    }
}

/// The sum of the sizes of `files`.
pub open spec fn total_bytes(files: Seq<FileInfo>) -> nat
    decreases files.len(),
{
    if files.len() == 0 {
        0
    } else {
        total_bytes(files.drop_last()) + files.last().size as nat
    }
}

/// The positions of the files of category `c`, in order.
pub open spec fn positions_in(files: Seq<FileInfo>, c: Category) -> Seq<int>
    decreases files.len(),
{
    if files.len() == 0 {
        seq![]
    } else if files.last().category == c {
        positions_in(files.drop_last(), c).push(files.len() - 1)
    } else {
        positions_in(files.drop_last(), c)
    }
}

/// The sum of the sizes of the files of category `c`.
pub open spec fn bytes_in(files: Seq<FileInfo>, c: Category) -> nat
    decreases files.len(),
{
    if files.len() == 0 {
        0
    } else {
        bytes_in(files.drop_last(), c) + if files.last().category == c {
            files.last().size as nat
        } else {
            0
        }
    }
}

proof fn lemma_bytes_in_bounded(files: Seq<FileInfo>, c: Category)
    ensures
        bytes_in(files, c) <= total_bytes(files),
    decreases files.len(),
{
    if files.len() > 0 {
        lemma_bytes_in_bounded(files.drop_last(), c);
    }
}

proof fn lemma_positions_bounded(files: Seq<FileInfo>, c: Category)
    ensures
        positions_in(files, c).len() <= files.len(),
        forall|k: int|
            0 <= k < positions_in(files, c).len() ==> 0 <= #[trigger] positions_in(files, c)[k]
                < files.len() && files[positions_in(files, c)[k]].category == c,
    decreases files.len(),
{
    if files.len() > 0 {
        lemma_positions_bounded(files.drop_last(), c);
        let prev = positions_in(files.drop_last(), c);
        assert forall|k: int| 0 <= k < prev.len() implies files[#[trigger] prev[k]] == files.drop_last()[prev[k]] by {}
    }
}

/// The dry-run preview: what a run would do, by category, before anything is moved.
pub struct PreviewApp {
    pub files: Vec<FileInfo>,
    pub total_size: u64,
    pub should_quit: bool,
    pub screen: PreviewScreen,
    pub scroll_offset: usize,
}

impl PreviewApp {
    /// The preview of these files, on the overview.
    pub fn new(files: Vec<FileInfo>) -> (r: PreviewApp)
        requires
            total_bytes(files@) <= u64::MAX,
        ensures
            r.files == files,
            r.total_size == total_bytes(files@),
            !r.should_quit,
            r.screen == PreviewScreen::Overview,
            r.scroll_offset == 0,
    {
        let mut total: u64 = 0;
        let mut i: usize = 0;
        while i < files.len()
            invariant
                i <= files@.len(),
                total == total_bytes(files@.take(i as int)),
                total_bytes(files@) <= u64::MAX,
            decreases files.len() - i,
        {
            proof {
                lemma_total_prefix(files@, i as int + 1);
                assert(files@.take(i + 1).drop_last() =~= files@.take(i as int));
            }
            total = total + files[i].size;
            i = i + 1;
        }
        assert(files@.take(files@.len() as int) =~= files@);
        PreviewApp {
            files,
            total_size: total,
            should_quit: false,
            screen: PreviewScreen::Overview,
            scroll_offset: 0,
        }
    }

    /// The category shown in detail, if any.
    pub fn selected_category(&self) -> (r: Option<Category>)
        ensures
            r == (match self.screen {
                PreviewScreen::CategoryDetail(c) => Some(c),
                _ => None,
            }),
    {
        match self.screen {
            PreviewScreen::CategoryDetail(c) => Some(c),
            _ => None,
        }
    }

    /// The positions in `files` of the files of category `c`, in order.
    pub fn positions(&self, c: Category) -> (r: Vec<usize>)
        ensures
            r@.map_values(|p: usize| p as int) == positions_in(self.files@, c),
    {
        let mut out: Vec<usize> = Vec::new();
        let mut i: usize = 0;
        while i < self.files.len()
            invariant
                i <= self.files@.len(),
                out@.map_values(|p: usize| p as int) == positions_in(self.files@.take(i as int), c),
            decreases self.files.len() - i,
        {
            assert(self.files@.take(i + 1).drop_last() =~= self.files@.take(i as int));
            if self.files[i].category == c {
                out.push(i);
            }
            i = i + 1;
            assert(out@.map_values(|p: usize| p as int) =~= positions_in(self.files@.take(i as int), c));
        }
        assert(self.files@.take(self.files@.len() as int) =~= self.files@);
        out
    }

    /// How many files category `c` holds, and their total size.
    pub fn category_totals(&self, c: Category) -> (r: (usize, u64))
        requires
            self.total_size == total_bytes(self.files@),
        ensures
            r.0 == positions_in(self.files@, c).len(),
            r.1 == bytes_in(self.files@, c),
    {
        let mut count: usize = 0;
        let mut bytes: u64 = 0;
        let mut i: usize = 0;
        while i < self.files.len()
            invariant
                i <= self.files@.len(),
                self.total_size == total_bytes(self.files@),
                count == positions_in(self.files@.take(i as int), c).len(),
                bytes == bytes_in(self.files@.take(i as int), c),
            decreases self.files.len() - i,
        {
            let ghost pre = self.files@.take(i + 1);
            assert(pre.drop_last() =~= self.files@.take(i as int));
            proof {
                lemma_positions_bounded(pre, c);
                lemma_bytes_in_bounded(pre, c);
                lemma_total_prefix(self.files@, i as int + 1);
            }
            if self.files[i].category == c {
                count = count + 1;
                bytes = bytes + self.files[i].size;
            }
            i = i + 1;
        }
        assert(self.files@.take(self.files@.len() as int) =~= self.files@);
        (count, bytes)
    }

    /// Reacts to one key, as the transition table says.
    pub fn handle_key(&mut self, key: Key) -> (r: PreviewStep)
        ensures
            final(self).screen == preview_transition(old(self).screen, key).0,
            r == preview_transition(old(self).screen, key).1,
            final(self).should_quit == (old(self).should_quit || r == PreviewStep::Cancel),
            final(self).scroll_offset == scroll_after(
                old(self).screen,
                old(self).scroll_offset as nat,
                key,
            ),
            final(self).files == old(self).files,
            final(self).total_size == old(self).total_size,
    {
        let overview = match self.screen {
            PreviewScreen::CategoryDetail(_) => false,
            _ => true,
        };
        let (next, step) = match key {
            Key::Char('q') => (self.screen, PreviewStep::Cancel),
            Key::Esc => match self.screen {
                PreviewScreen::CategoryDetail(_) => (PreviewScreen::OverviewAfterBack, PreviewStep::Continue),
                PreviewScreen::OverviewAfterBack => (PreviewScreen::Overview, PreviewStep::Continue),
                PreviewScreen::Overview => (PreviewScreen::Overview, PreviewStep::Cancel),
            },
            Key::Enter => if overview {
                (PreviewScreen::Overview, PreviewStep::Proceed)
            } else {
                (self.screen, PreviewStep::Continue)
            },
            Key::Char(c) => {
                let chosen = if c == '1' {
                    Some(Category::Multimedia)
                } else if c == '2' {
                    Some(Category::Docs)
                } else if c == '3' {
                    Some(Category::Compressed)
                } else if c == '4' {
                    Some(Category::Misc)
                } else {
                    None
                };
                match chosen {
                    Some(cat) if overview => (PreviewScreen::CategoryDetail(cat), PreviewStep::Continue),
                    _ => if overview {
                        (PreviewScreen::Overview, PreviewStep::Continue)
                    } else {
                        (self.screen, PreviewStep::Continue)
                    },
                }
            },
            _ => if overview {
                (PreviewScreen::Overview, PreviewStep::Continue)
            } else {
                (self.screen, PreviewStep::Continue)
            },
        };
        let offset = match self.screen {
            PreviewScreen::CategoryDetail(_) if next == self.screen => {
                if key == Key::Up || key == Key::Left {
                    self.scroll_offset.saturating_sub(1)
                } else if key == Key::Down || key == Key::Right {
                    self.scroll_offset.saturating_add(1)
                } else {
                    self.scroll_offset
                }
            },
            _ => 0,
        };
        self.screen = next;
        self.scroll_offset = offset;
        if step == PreviewStep::Cancel {
            self.should_quit = true;
        }
        step
    }
}

proof fn lemma_total_prefix(files: Seq<FileInfo>, i: int)
    requires
        0 <= i <= files.len(),
    ensures
        total_bytes(files.take(i)) <= total_bytes(files),
    decreases files.len() - i,
{
    if i < files.len() {
        lemma_total_prefix(files, i + 1);
        assert(files.take(i + 1).drop_last() =~= files.take(i));
    } else {
        assert(files.take(i) =~= files);
    }
}

/// How many files of one category were moved so far, and their total size.
#[derive(Clone, Copy, Debug, PartialEq, Eq, Structural)]
pub struct CategoryProgress {
    pub count: usize,
    pub size: u64,
}

/// How long the progress screen waits between two frames, in milliseconds.
pub const FRAME_INTERVAL_MS: u64 = 50;

/// Width of a category's bar on the progress screen, in cells.
pub const BAR_WIDTH: usize = 20;

/// Whether the progress screen draws a frame after the file at `index` of `total`: once a
/// frame interval has passed since the last one, and always after the last file.
pub fn should_render(since_last_ms: u64, index: usize, total: usize) -> (r: bool)
    ensures
        r == (since_last_ms >= FRAME_INTERVAL_MS || index + 1 == total),
{
    since_last_ms >= FRAME_INTERVAL_MS || (total > 0 && index == total - 1)
}

/// `part` out of `whole` in percent, rounded down; zero when `whole` is zero.
pub open spec fn percent_of(part: nat, whole: nat) -> nat {
    if whole == 0 {
        0
    } else {
        part * 100 / whole
    }
}

/// `part` out of `whole` in percent, rounded down; zero when `whole` is zero.
pub fn percent(part: usize, whole: usize) -> (r: u64)
    requires
        part <= whole,
    ensures
        r == percent_of(part as nat, whole as nat),
        r <= 100,
{
    if whole == 0 {
        0
    } else {
        let p: u128 = part as u128 * 100;
        let r = p / (whole as u128);
        assert(r <= 100) by (nonlinear_arith)
            requires
                p as int == part * 100,
                r as int == p as int / (whole as int),
                part <= whole,
                whole > 0,
        ;
        r as u64
    }
}

/// The filled cells of a bar of `width` cells for `part` out of `whole`; none when `whole`
/// is zero.
pub fn bar_filled(part: usize, whole: usize, width: usize) -> (r: usize)
    requires
        part <= whole,
    ensures
        r == if whole == 0 { 0 } else { (part * width) as int / whole as int },
        r <= width,
{
    if whole == 0 {
        0
    } else {
        assert(part * width <= u128::MAX) by (nonlinear_arith)
            requires
                part <= usize::MAX,
                width <= usize::MAX,
                usize::MAX <= u64::MAX,
        ;
        let p: u128 = part as u128 * width as u128;
        let r = p / (whole as u128);
        assert(r <= width) by (nonlinear_arith)
            requires
                p as int == part * width,
                r as int == p as int / (whole as int),
                part <= whole,
                whole > 0,
        ;
        r as usize
    }
}

/// How a category stands on the progress screen.
#[derive(Clone, Copy, Debug, PartialEq, Eq, Structural)]
pub enum CategoryMark {
    /// Files were moved into it.
    Done,
    /// The file being processed belongs to it, and none was moved into it yet.
    Current,
    /// Neither.
    Waiting,
}

/// The sum of the counts of the four categories.
pub open spec fn moved_count(progress: Seq<CategoryProgress>) -> int {
    progress[0].count + progress[1].count + progress[2].count + progress[3].count
}

/// The live progress of a real run: the file being processed and the running totals.
pub struct ProgressApp {
    pub total_files: usize,
    pub current_file: String,
    pub current_category: Option<Category>,
    pub current_mime: String,
    pub current_size: u64,
    pub stats: OrganizeStats,
    pub category_progress: Vec<CategoryProgress>,
}

impl ProgressApp {
    /// The totals agree: every processed file counted once, and the categories' counts add up
    /// to the moved files.
    pub open spec fn consistent(&self) -> bool {
        &&& self.category_progress@.len() == CATEGORY_COUNT
        &&& self.stats.balanced()
        &&& moved_count(self.category_progress@) == self.stats.moved
    }

    /// A run of `total_files` files, none processed yet.
    pub fn new(total_files: usize) -> (r: ProgressApp)
        ensures
            r.total_files == total_files,
            r.stats == OrganizeStats::new_spec(),
            r.category_progress@ == seq![CategoryProgress { count: 0, size: 0 }; 4],
            r.current_file@.len() == 0,
            r.current_category is None,
            r.current_mime@.len() == 0,
            r.current_size == 0,
            r.consistent(),
    {
        let zero = CategoryProgress { count: 0, size: 0 };
        let category_progress = vec![zero, zero, zero, zero];
        let r = ProgressApp {
            total_files,
            current_file: String::new(),
            current_category: None,
            current_mime: String::new(),
            current_size: 0,
            stats: OrganizeStats::new(),
            category_progress,
        };
        assert(r.category_progress@ =~= seq![CategoryProgress { count: 0, size: 0 }; 4]);
        r
    }

    /// Shows `file` as the one being processed.
    pub fn update_current(&mut self, file: &FileInfo)
        ensures
            final(self).current_file@ == file.name@,
            final(self).current_category == Some(file.category),
            final(self).current_mime@ == (match file.mime_type {
                Some(m) => m@,
                None => "unknown"@,
            }),
            final(self).current_size == file.size,
            final(self).total_files == old(self).total_files,
            final(self).stats == old(self).stats,
            final(self).category_progress == old(self).category_progress,
    {
        self.current_file = file.name.clone();
        self.current_category = Some(file.category);
        self.current_mime = match &file.mime_type {
            Some(m) => m.clone(),
            None => String::from_str("unknown"),
        };
        self.current_size = file.size;
    }

    /// Adds one moved file of `size` bytes to `category`.
    pub fn update_category(&mut self, category: Category, size: u64)
        requires
            old(self).category_progress@.len() == CATEGORY_COUNT,
            old(self).category_progress@[category.spec_index()].count < usize::MAX,
            old(self).category_progress@[category.spec_index()].size + size <= u64::MAX,
        ensures
            final(self).category_progress@ == old(self).category_progress@.update(
                category.spec_index(),
                CategoryProgress {
                    count: (old(self).category_progress@[category.spec_index()].count + 1) as usize,
                    size: (old(self).category_progress@[category.spec_index()].size + size) as u64,
                },
            ),
            final(self).stats == old(self).stats,
            final(self).total_files == old(self).total_files,
            final(self).current_file == old(self).current_file,
            final(self).current_category == old(self).current_category,
            final(self).current_mime == old(self).current_mime,
            final(self).current_size == old(self).current_size,
    {
        let i = category.index();
        let old_progress = self.category_progress[i];
        self.category_progress.set(
            i,
            CategoryProgress { count: old_progress.count + 1, size: old_progress.size + size },
        );
    }

    /// Whether one more file of `size` bytes in `category` can be counted without overflow.
    pub fn can_record(&self, category: Category, size: u64) -> (r: bool)
        requires
            self.category_progress@.len() == CATEGORY_COUNT,
        ensures
            r == (self.stats.total_files < usize::MAX
                && self.category_progress@[category.spec_index()].count < usize::MAX
                && self.category_progress@[category.spec_index()].size + size <= u64::MAX),
    {
        let p = self.category_progress[category.index()];
        self.stats.total_files < usize::MAX && p.count < usize::MAX && size <= u64::MAX - p.size
    }

    /// Folds the outcome for `file` into the totals: the file is counted once, and toward its
    /// category only when it was moved.
    pub fn record(&mut self, file: &FileInfo, outcome: &MoveOutcome)
        requires
            old(self).consistent(),
            old(self).stats.total_files < usize::MAX,
            old(self).category_progress@[file.category.spec_index()].count < usize::MAX,
            old(self).category_progress@[file.category.spec_index()].size + file.size <= u64::MAX,
        ensures
            final(self).consistent(),
            final(self).stats.total_files == old(self).stats.total_files + 1,
            final(self).stats.moved == old(self).stats.moved + if outcome_kind(*outcome) == 0 {
                1int
            } else {
                0
            },
            final(self).stats.skipped == old(self).stats.skipped + if outcome_kind(*outcome) == 1 {
                1int
            } else {
                0
            },
            final(self).stats.errors == old(self).stats.errors + if outcome_kind(*outcome) == 2 {
                1int
            } else {
                0
            },
            outcome is Moved ==> final(self).category_progress@ == old(self).category_progress@.update(
                file.category.spec_index(),
                CategoryProgress {
                    count: (old(self).category_progress@[file.category.spec_index()].count
                        + 1) as usize,
                    size: (old(self).category_progress@[file.category.spec_index()].size
                        + file.size) as u64,
                },
            ),
            !(outcome is Moved) ==> final(self).category_progress == old(self).category_progress,
            final(self).total_files == old(self).total_files,
            final(self).current_file == old(self).current_file,
            final(self).current_category == old(self).current_category,
            final(self).current_mime == old(self).current_mime,
            final(self).current_size == old(self).current_size,
    {
        self.stats.record(outcome);
        if let MoveOutcome::Moved(_) = outcome {
            self.update_category(file.category, file.size);
        }
    }

    /// Files processed so far, in percent of all; zero for an empty run.
    pub fn percent_done(&self) -> (r: u64)
        requires
            self.stats.total_files <= self.total_files,
        ensures
            r == percent_of(self.stats.total_files as nat, self.total_files as nat),
    {
        percent(self.stats.total_files, self.total_files)
    }

    /// How `category` stands.
    pub fn mark(&self, category: Category) -> (r: CategoryMark)
        requires
            self.category_progress@.len() == CATEGORY_COUNT,
        ensures
            r == if self.category_progress@[category.spec_index()].count > 0 {
                CategoryMark::Done
            } else if self.current_category == Some(category) {
                CategoryMark::Current
            } else {
                CategoryMark::Waiting
            },
    {
        if self.category_progress[category.index()].count > 0 {
            CategoryMark::Done
        } else {
            match self.current_category {
                Some(c) if c == category => CategoryMark::Current,
                _ => CategoryMark::Waiting,
            }
        }
    }
}

/// Which heading the summary shows.
#[derive(Clone, Copy, Debug, PartialEq, Eq, Structural)]
pub enum SummaryTone {
    /// Some file failed.
    WithErrors,
    /// Every file was moved.
    AllMoved,
    /// No failure, but some file was skipped.
    Completed,
}

/// Whether `key` dismisses the summary: Enter, Esc or `q`.
pub fn is_dismiss_key(key: Key) -> (r: bool)
    ensures
        r == (key == Key::Enter || key == Key::Esc || key == Key::Char('q')),
{
    match key {
        Key::Enter | Key::Esc => true,
        Key::Char(c) => c == 'q',
        _ => false,
    }
}

/// The categories with at least one moved file, from the position `i` of the display order on.
pub open spec fn filled_from(progress: Seq<CategoryProgress>, i: int) -> Seq<Category>
    decreases 4 - i,
{
    if i >= 4 {
        seq![]
    } else if progress[i].count > 0 {
        seq![Category::spec_at(i)] + filled_from(progress, i + 1)
    } else {
        filled_from(progress, i + 1)
    }
}

/// The final screen of a real run.
pub struct SummaryApp {
    pub stats: OrganizeStats,
    pub category_progress: Vec<CategoryProgress>,
    pub elapsed_ms: u64,
    pub total_size_moved: u64,
}

impl SummaryApp {
    pub fn new(
        stats: OrganizeStats,
        category_progress: Vec<CategoryProgress>,
        elapsed_ms: u64,
        total_size_moved: u64,
    ) -> (r: SummaryApp)
        ensures
            r.stats == stats,
            r.category_progress == category_progress,
            r.elapsed_ms == elapsed_ms,
            r.total_size_moved == total_size_moved,
    {
        SummaryApp { stats, category_progress, elapsed_ms, total_size_moved }
    }

    /// Moved files in percent of all processed ones, rounded down; zero when none was processed.
    pub fn success_rate(&self) -> (r: u64)
        requires
            self.stats.balanced(),
        ensures
            r == percent_of(self.stats.moved as nat, self.stats.total_files as nat),
    {
        percent(self.stats.moved, self.stats.total_files)
    }

    /// The heading: errors first, then whether every file was moved.
    pub fn tone(&self) -> (r: SummaryTone)
        ensures
            r == if self.stats.errors > 0 {
                SummaryTone::WithErrors
            } else if self.stats.moved == self.stats.total_files {
                SummaryTone::AllMoved
            } else {
                SummaryTone::Completed
            },
    {
        if self.stats.errors > 0 {
            SummaryTone::WithErrors
        } else if self.stats.moved == self.stats.total_files {
            SummaryTone::AllMoved
        } else {
            SummaryTone::Completed
        }
    }

    /// Bytes moved per second, rounded down; zero when no time elapsed.
    pub fn bytes_per_second(&self) -> (r: u128)
        ensures
            r == if self.elapsed_ms == 0 {
                0
            } else {
                self.total_size_moved * 1000 / self.elapsed_ms as int
            },
    {
        if self.elapsed_ms == 0 {
            0
        } else {
            self.total_size_moved as u128 * 1000 / self.elapsed_ms as u128
        }
    }

    /// Files moved per second, in tenths, rounded down; zero when no time elapsed.
    pub fn files_per_second_tenths(&self) -> (r: u128)
        ensures
            r == if self.elapsed_ms == 0 {
                0
            } else {
                self.stats.moved * 10000 / self.elapsed_ms as int
            },
    {
        if self.elapsed_ms == 0 {
            0
        } else {
            self.stats.moved as u128 * 10000 / self.elapsed_ms as u128
        }
    }

    /// The categories that received files, in display order.
    pub fn breakdown(&self) -> (r: Vec<Category>)
        requires
            self.category_progress@.len() == CATEGORY_COUNT,
        ensures
            r@ == filled_from(self.category_progress@, 0),
    {
        let mut out: Vec<Category> = Vec::new();
        let mut i: usize = 0;
        while i < CATEGORY_COUNT
            invariant
                self.category_progress@.len() == CATEGORY_COUNT,
                i <= CATEGORY_COUNT,
                out@ + filled_from(self.category_progress@, i as int) == filled_from(
                    self.category_progress@,
                    0,
                ),
            decreases CATEGORY_COUNT - i,
        {
            if self.category_progress[i].count > 0 {
                let c = Category::at(i);
                out.push(c.unwrap());
                assert(out@ + filled_from(self.category_progress@, i + 1) =~= filled_from(
                    self.category_progress@,
                    0,
                ));
            }
            i = i + 1;
        }
        assert(out@ =~= out@ + filled_from(self.category_progress@, 4));
        out
    }
}

/// The rows of a category's list that fit in `height` lines from `offset` on: the first shown
/// and the one after the last shown.
pub fn visible_window(count: usize, height: usize, offset: usize) -> (r: (usize, usize))
    ensures
        r.0 == if offset <= count { offset } else { count },
        r.1 == if offset + height <= count { offset + height } else { count as int },
        r.0 <= r.1 <= count,
{
    let start = if offset <= count { offset } else { count };
    let end = if offset <= count && height <= count - offset { offset + height } else { count };
    (start, end)
}

/// A category box of `height` lines listing `len` files: how many files it shows, and how
/// many it leaves to a final "... more" line. Four lines go to the borders, the total and a
/// blank line; when not all files fit, one more goes to the "more" line.
pub fn box_rows(len: usize, height: usize) -> (r: (usize, usize))
    ensures
        r.0 == if len > height - 4 { if height - 4 >= 1 { height - 5 } else { 0 } } else { len as int },
        r.0 + r.1 == len,
{
    let available = height.saturating_sub(4);
    let shown = if len > available { available.saturating_sub(1) } else { len };
    (shown, len - shown)
}

} // verus!
